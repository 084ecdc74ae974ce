//! Controlled peers: a client that is stopped half-way must not hand its connection on.
//!
//! The peer keeps the bytes of both directions. An operation that is stopped is one whose steps
//! are not driven any further; forgetting, dropping or a panic of the caller look the same.

use zero_postgres::conn::batch::BatchNext;
use zero_postgres::conn::drive::{startup_step, Action, Demand, Progress};
use zero_postgres::conn::exchange::{ExecuteExchange, Fetch, ReplyExchange, SyncExchange};
use zero_postgres::conn::scope::{BindPlan, Plan, PortalNext, PortalOutcome, PortalRun};
use zero_postgres::params::{Params, ToParams};
use zero_postgres::pipeline::Next;
use zero_postgres::pool::{GetNext, GetOutcome, Session, RESET};
use zero_postgres::protocol::backend::{
    parse_error, parse_header, parse_ready, parse_row, DataRow, Message,
};
use zero_postgres::protocol::frontend::{
    write_bind, write_describe_portal, write_execute, write_flush, write_parse, write_sync,
};
use zero_postgres::protocol::wire::push_frame;
use zero_postgres::types::BackendKeyData;
use zero_postgres::{
    Conn, Error, Opts, Pipeline, Pool, PreparedStatement, ServerError, TransactionStatus,
    UnnamedPortal,
};

type Client = Conn<()>;

fn message(kind: u8, payload: &[u8]) -> Vec<u8> {
    let mut bytes = vec![kind];
    bytes.extend_from_slice(&((payload.len() + 4) as u32).to_be_bytes());
    bytes.extend_from_slice(payload);
    bytes
}

fn row_data(value: i32, binary: bool) -> Vec<u8> {
    let mut columns = vec![0, 1];
    columns.extend_from_slice(b"value\0");
    columns.extend_from_slice(&[0; 6]); // table oid, attribute
    columns.extend_from_slice(&23_u32.to_be_bytes()); // int4
    columns.extend_from_slice(&4_i16.to_be_bytes());
    columns.extend_from_slice(&(-1_i32).to_be_bytes());
    columns.extend_from_slice(&i16::from(binary).to_be_bytes());
    let value = if binary {
        value.to_be_bytes().to_vec()
    } else {
        value.to_string().into_bytes()
    };
    let mut data = vec![0, 1];
    data.extend_from_slice(&(value.len() as u32).to_be_bytes());
    data.extend_from_slice(&value);
    [message(b'T', &columns), message(b'D', &data)].concat()
}

fn rows(value: i32, binary: bool) -> Vec<u8> {
    [row_data(value, binary), message(b'C', b"SELECT 1\0")].concat()
}

/// Both directions of a connection, and what the peer answers next.
struct Peer {
    requests: Vec<u8>,
    responses: Vec<u8>,
    script: Vec<(u8, Vec<u8>)>,
}

impl Peer {
    /// Answer with `response` once a message of type `terminal` has come.
    fn will_respond(&mut self, terminal: u8, response: &[u8]) {
        self.script.insert(0, (terminal, response.to_vec()));
    }

    fn write(&mut self, bytes: &[u8]) {
        self.requests.extend_from_slice(bytes);
        while let Some((terminal, _)) = self.script.last() {
            let mut at: usize = 0;
            let mut found = false;
            while !found && at + 5 <= self.requests.len() {
                let header: [u8; 5] = self.requests[at..at + 5].try_into().unwrap();
                let (kind, length) = parse_header(&header).unwrap();
                at += 5 + length;
                found = kind == *terminal;
            }
            if !found {
                break;
            }
            assert!(at <= self.requests.len());
            self.requests.drain(..at);
            let (_, response) = self.script.pop().unwrap();
            self.responses.extend_from_slice(&response);
        }
    }

    /// The next message, or nothing where its bytes have not all come.
    fn read(&mut self) -> Option<Message> {
        if self.responses.len() < 5 {
            return None;
        }
        let header: [u8; 5] = self.responses[..5].try_into().unwrap();
        let (type_byte, length) = parse_header(&header).unwrap();
        if self.responses.len() < 5 + length {
            return None;
        }
        let payload = self.responses[5..5 + length].to_vec();
        self.responses.drain(..5 + length);
        Some(Message { type_byte, payload })
    }
}

fn connection() -> (Client, Peer) {
    let mut peer = Peer { requests: vec![], responses: vec![], script: vec![] };
    peer.responses = [
        message(b'R', &0_u32.to_be_bytes()),
        message(b'K', &[0, 0, 0, 123, 0, 0, 0, 1]),
        message(b'Z', b"I"),
    ]
    .concat();
    let mut key = None;
    let mut status = TransactionStatus::Idle;
    let mut step = Action::WriteAndReadMessage;
    loop {
        match startup_step(Ok(step), false) {
            Progress::Io(Demand::WriteRead) | Progress::Io(Demand::Read) => {}
            Progress::Io(demand) => panic!("unexpected {demand:?}"),
            Progress::Done(result) => {
                result.unwrap();
                break;
            }
        }
        let m = peer.read().unwrap();
        step = match m.type_byte {
            b'K' => {
                key = Some(BackendKeyData {
                    process_id: u32::from_be_bytes(m.payload[..4].try_into().unwrap()),
                    secret_key: m.payload[4..].to_vec(),
                });
                Action::ReadMessage
            }
            b'Z' => {
                status = parse_ready(&m.payload).unwrap();
                Action::Finished
            }
            _ => Action::ReadMessage,
        };
    }
    (Conn::established(key, vec![], status), peer)
}

fn int4(value: i32) -> Params {
    Params { oids: vec![23], values: vec![Some(value.to_be_bytes().to_vec())] }
}

/// A machine that sends a request and takes answers up to ReadyForQuery.
struct Machine<'h> {
    request: Vec<u8>,
    started: bool,
    error: Option<ServerError>,
    status: TransactionStatus,
    on_row: &'h mut dyn FnMut(&DataRow) -> Result<(), Error>,
    /// A server error is the machine's own error.
    strict: bool,
    /// BindComplete is the end.
    binds: bool,
}

fn machine<'h>(
    request: Vec<u8>,
    on_row: &'h mut dyn FnMut(&DataRow) -> Result<(), Error>,
) -> Machine<'h> {
    Machine {
        request,
        started: false,
        error: None,
        status: TransactionStatus::Idle,
        on_row,
        strict: false,
        binds: false,
    }
}

impl Machine<'_> {
    fn step(&mut self, conn: &mut Client) -> Result<Action, Error> {
        if !self.started {
            self.started = true;
            let buf = conn.write_buffer_mut();
            buf.clear();
            buf.extend_from_slice(&self.request);
            return Ok(Action::WriteAndReadMessage);
        }
        match conn.type_byte() {
            b'D' => {
                let row = parse_row(conn.read_buffer())?;
                (self.on_row)(&row)?;
            }
            b'E' => {
                let error = parse_error(conn.read_buffer())?;
                if self.strict {
                    return Err(Error::Server(error));
                }
                self.error = Some(error);
            }
            b'2' if self.binds => return Ok(Action::Finished),
            b'Z' => {
                self.status = parse_ready(conn.read_buffer())?;
                return Ok(match self.error.take() {
                    Some(error) => Action::Error(error),
                    None => Action::Finished,
                });
            }
            _ => {}
        }
        Ok(Action::ReadMessage)
    }
}

#[derive(Clone, Copy)]
enum Driver {
    Query,
    Bind,
    PrepareBatch,
    Batch,
}

/// Drives a machine whose exchange has begun; nothing where the peer does not answer.
fn drive(
    conn: &mut Client,
    peer: &mut Peer,
    machine: &mut Machine<'_>,
    driver: Driver,
) -> Option<Result<(), Error>> {
    loop {
        let step = machine.step(conn);
        let status = machine.status;
        let progress = match driver {
            Driver::Query => conn.drive_step(step, status),
            Driver::Bind => conn.bind_step(step),
            Driver::PrepareBatch => conn.prepare_batch_step(step, status),
            Driver::Batch => conn.batch_step(step, status),
        };
        match progress {
            Progress::Io(Demand::WriteRead) => peer.write(conn.write_buffer()),
            Progress::Io(Demand::Read) => {}
            Progress::Io(demand) => panic!("unexpected {demand:?}"),
            Progress::Done(result) => return Some(result),
        }
        conn.receive(peer.read()?);
    }
}

fn frame(kind: u8, body: &[u8]) -> Vec<u8> {
    let mut out = vec![];
    push_frame(&mut out, kind, body);
    out
}

fn bind_request<P: ToParams>(portal: &str, plan: &Plan<'_>, params: &P) -> Vec<u8> {
    let mut out = vec![];
    match plan {
        Plan::Sql(sql) => {
            let oids = params.natural_oids();
            write_parse(&mut out, "", sql, &oids);
            write_bind(&mut out, portal, "", params, &oids).unwrap();
        }
        Plan::Prepared { name, oids } => write_bind(&mut out, portal, name, params, oids).unwrap(),
    }
    out
}

fn extended_request<P: ToParams>(plan: &Plan<'_>, params: &P) -> Vec<u8> {
    let mut out = bind_request("", plan, params);
    write_describe_portal(&mut out, "");
    write_execute(&mut out, "", 0);
    write_sync(&mut out);
    out
}

fn query_foreach(
    conn: &mut Client,
    peer: &mut Peer,
    sql: &str,
    on_row: &mut dyn FnMut(&DataRow) -> Result<(), Error>,
) -> Option<Result<(), Error>> {
    let sql = match conn.query(sql) {
        Ok(sql) => sql,
        Err(e) => return Some(Err(e)),
    };
    run_query(conn, peer, sql, on_row)
}

fn run_query(
    conn: &mut Client,
    peer: &mut Peer,
    sql: &str,
    on_row: &mut dyn FnMut(&DataRow) -> Result<(), Error>,
) -> Option<Result<(), Error>> {
    let mut machine = machine(frame(b'Q', &[sql.as_bytes(), b"\0"].concat()), on_row);
    let result = drive(conn, peer, &mut machine, Driver::Query)?;
    Some(conn.conclude(result))
}

fn query_drop(conn: &mut Client, peer: &mut Peer, sql: &str) -> Option<Result<(), Error>> {
    query_foreach(conn, peer, sql, &mut |_| Ok(()))
}

fn ping(conn: &mut Client, peer: &mut Peer) -> Option<Result<(), Error>> {
    match conn.ping() {
        Ok(sql) => run_query(conn, peer, sql, &mut |_| Ok(())),
        Err(e) => Some(Err(e)),
    }
}

fn query_collect(conn: &mut Client, peer: &mut Peer, sql: &str) -> Option<Result<Vec<i32>, Error>> {
    let mut values = vec![];
    let result = query_foreach(conn, peer, sql, &mut |row| {
        let text = row.values[0].clone().unwrap();
        values.push(String::from_utf8(text).unwrap().parse().unwrap());
        Ok(())
    })?;
    Some(result.map(|()| values))
}

fn exec_foreach<P: ToParams>(
    conn: &mut Client,
    peer: &mut Peer,
    sql: &str,
    params: P,
    on_row: &mut dyn FnMut(&DataRow) -> Result<(), Error>,
) -> Option<Result<(), Error>> {
    let plan = match conn.exec(sql) {
        Ok(plan) => plan,
        Err(e) => return Some(Err(e)),
    };
    let mut machine = machine(extended_request(&plan, &params), on_row);
    conn.begin_exchange().unwrap();
    let result = drive(conn, peer, &mut machine, Driver::Query)?;
    Some(conn.conclude(result))
}

fn exec_drop<P: ToParams>(
    conn: &mut Client,
    peer: &mut Peer,
    sql: &str,
    params: P,
) -> Option<Result<(), Error>> {
    exec_foreach(conn, peer, sql, params, &mut |_| Ok(()))
}

fn exec_batch<P: ToParams>(
    conn: &mut Client,
    peer: &mut Peer,
    sql: &str,
    params: &[P],
) -> Option<Result<(), Error>> {
    let mut batch = match conn.exec_batch(sql, params) {
        Ok(batch) => batch,
        Err(e) => return Some(Err(e)),
    };
    let mut previous = Ok(());
    loop {
        match batch.next_chunk(conn, params, previous) {
            BatchNext::Finished => return Some(Ok(())),
            BatchNext::Failed(e) => return Some(Err(e)),
            BatchNext::Drive { parse } => {
                assert!(parse);
                let mut on_row = |_: &DataRow| Ok(());
                let mut machine = machine(conn.write_buffer().to_vec(), &mut on_row);
                previous = drive(conn, peer, &mut machine, Driver::Batch)?;
            }
        }
    }
}

fn prepare(conn: &mut Client, peer: &mut Peer, sql: &str) -> Option<Result<(), Error>> {
    let preparation = match conn.prepare(sql) {
        Ok(preparation) => preparation,
        Err(e) => return Some(Err(e)),
    };
    let mut request = vec![];
    write_parse(&mut request, "s", preparation.query, preparation.oids);
    write_sync(&mut request);
    let mut on_row = |_: &DataRow| Ok(());
    let mut machine = machine(request, &mut on_row);
    let result = drive(conn, peer, &mut machine, Driver::Query)?;
    Some(conn.conclude(result))
}

fn prepare_batch(conn: &mut Client, peer: &mut Peer, queries: &[&str]) -> Option<Result<(), Error>> {
    match conn.prepare_batch(queries) {
        Err(e) => return Some(Err(e)),
        Ok(numbers) if numbers.is_empty() => return Some(Ok(())),
        Ok(numbers) => assert_eq!(numbers.len(), queries.len()),
    }
    let mut request = vec![];
    for sql in queries {
        write_parse(&mut request, "s", sql, &[]);
    }
    write_sync(&mut request);
    let mut on_row = |_: &DataRow| Ok(());
    let mut machine = machine(request, &mut on_row);
    machine.strict = true;
    let result = drive(conn, peer, &mut machine, Driver::PrepareBatch)?;
    Some(conn.conclude(result))
}

fn close_statement(
    conn: &mut Client,
    peer: &mut Peer,
    stmt: &PreparedStatement,
) -> Option<Result<(), Error>> {
    let name = match conn.close_statement(stmt) {
        Ok(name) => name,
        Err(e) => return Some(Err(e)),
    };
    let mut request = frame(b'C', &[b"S", name.as_bytes(), b"\0"].concat());
    write_sync(&mut request);
    let mut on_row = |_: &DataRow| Ok(());
    let mut machine = machine(request, &mut on_row);
    let result = drive(conn, peer, &mut machine, Driver::Query)?;
    Some(conn.conclude(result))
}

fn run_reply(
    conn: &mut Client,
    peer: &mut Peer,
    exchange: Result<ReplyExchange, Error>,
) -> Option<Result<(), Error>> {
    let mut exchange = match exchange {
        Ok(exchange) => exchange,
        Err(e) => return Some(conn.conclude(Err(e))),
    };
    peer.write(conn.write_buffer());
    loop {
        let m = peer.read()?;
        match exchange.received(conn, Ok(m)) {
            Progress::Io(demand) => assert!(matches!(demand, Demand::Read)),
            Progress::Done(result) => return Some(conn.conclude(result)),
        }
    }
}

fn run_sync(
    conn: &mut Client,
    peer: &mut Peer,
    exchange: Result<SyncExchange, Error>,
) -> Option<Result<(), Error>> {
    let mut exchange = match exchange {
        Ok(exchange) => exchange,
        Err(e) => return Some(conn.conclude(Err(e))),
    };
    peer.write(conn.write_buffer());
    loop {
        let m = peer.read()?;
        match exchange.received(conn, Ok(m)) {
            Progress::Io(demand) => assert!(matches!(demand, Demand::Read)),
            Progress::Done(result) => return Some(conn.conclude(result)),
        }
    }
}

fn run_execute(
    conn: &mut Client,
    peer: &mut Peer,
    exchange: Result<ExecuteExchange, Error>,
) -> Option<Result<bool, Error>> {
    let mut exchange = match exchange {
        Ok(exchange) => exchange,
        Err(e) => return Some(conn.conclude(Err(e))),
    };
    peer.write(conn.write_buffer());
    let mut fetch = Fetch::Read;
    loop {
        fetch = match fetch {
            Fetch::Read => {
                let m = peer.read()?;
                exchange.received(conn, Ok(m))
            }
            Fetch::Done(result) => return Some(conn.conclude(result)),
            _ => exchange.called_back(conn, Ok(())),
        };
    }
}

fn lowlevel_sync(conn: &mut Client, peer: &mut Peer) -> Option<Result<(), Error>> {
    let exchange = conn.lowlevel_sync();
    run_sync(conn, peer, exchange)
}

fn lowlevel_bind(
    conn: &mut Client,
    peer: &mut Peer,
    portal: &str,
    statement: &str,
) -> Option<Result<(), Error>> {
    let exchange = conn.lowlevel_bind(portal, statement, &());
    run_reply(conn, peer, exchange)
}

fn lowlevel_execute(
    conn: &mut Client,
    peer: &mut Peer,
    portal: &str,
    max_rows: u32,
) -> Option<Result<bool, Error>> {
    let exchange = conn.lowlevel_execute(portal, max_rows);
    run_execute(conn, peer, exchange)
}

fn lowlevel_close_portal(
    conn: &mut Client,
    peer: &mut Peer,
    portal: &str,
) -> Option<Result<(), Error>> {
    let exchange = conn.lowlevel_close_portal(portal);
    run_reply(conn, peer, exchange)
}

fn bind_portal(
    conn: &mut Client,
    peer: &mut Peer,
    plan: &BindPlan<'_>,
) -> Option<Result<(), Error>> {
    let mut request = bind_request(plan.portal, &plan.plan, &());
    write_flush(&mut request);
    let mut on_row = |_: &DataRow| Ok(());
    let mut machine = machine(request, &mut on_row);
    machine.binds = true;
    drive(conn, peer, &mut machine, Driver::Bind)
}

fn create_named_portal(
    conn: &mut Client,
    peer: &mut Peer,
    portal_name: &str,
    sql: &str,
) -> Option<Result<(), Error>> {
    let plan = match conn.create_named_portal(portal_name, sql) {
        Ok(plan) => plan,
        Err(e) => return Some(Err(e)),
    };
    conn.begin_exchange().unwrap();
    bind_portal(conn, peer, &plan)
}

/// The closure answers nothing where it is stopped.
fn exec_portal(
    conn: &mut Client,
    peer: &mut Peer,
    sql: &str,
    f: impl FnOnce(&mut UnnamedPortal<'_, ()>, &mut Peer) -> Option<Result<(), Error>>,
) -> Option<Result<(), Error>> {
    let plan = match conn.exec_portal(sql) {
        Ok(plan) => plan,
        Err(e) => return Some(Err(e)),
    };
    let mut f = Some(f);
    let mut run = PortalRun::new();
    let mut next = run.step(conn, PortalOutcome::Made(Ok(())));
    loop {
        let outcome = match next {
            PortalNext::Bind => PortalOutcome::Bound(bind_portal(conn, peer, &plan)?),
            PortalNext::Call => {
                let f = f.take().unwrap();
                PortalOutcome::Returned(f(&mut UnnamedPortal { conn: &mut *conn }, peer)?)
            }
            PortalNext::Sync(exchange) => PortalOutcome::Synced(run_sync(conn, peer, Ok(exchange))?),
            PortalNext::Done(result) => return Some(result),
        };
        next = run.step(conn, outcome);
    }
}

fn portal_exec(
    portal: &mut UnnamedPortal<'_, ()>,
    peer: &mut Peer,
    max_rows: u32,
) -> Option<Result<bool, Error>> {
    let exchange = portal.exec(max_rows);
    run_execute(portal.conn, peer, exchange)
}

/// Does what a pipeline asks for; nothing where the peer does not answer.
fn run(
    pipeline: &mut Pipeline<'_, ()>,
    peer: &mut Peer,
    next: Next,
    on_row: &mut dyn FnMut(&DataRow) -> Result<(), Error>,
) -> Option<Result<(), Error>> {
    let mut next = next;
    loop {
        next = match next {
            Next::Write => {
                peer.write(pipeline.conn().write_buffer());
                pipeline.sent(Ok(()))
            }
            Next::Read => {
                let m = peer.read()?;
                pipeline.received(Ok(m))
            }
            Next::Notify(m) => panic!("unexpected {m:?}"),
            Next::Row(_, row) => {
                let answer = on_row(&row);
                pipeline.called_back(answer)
            }
            Next::End(_) => pipeline.called_back(Ok(())),
            Next::Done(result) => return Some(result),
        };
    }
}

fn run_drop(
    pipeline: &mut Pipeline<'_, ()>,
    peer: &mut Peer,
    next: Next,
) -> Option<Result<(), Error>> {
    run(pipeline, peer, next, &mut |_| Ok(()))
}

fn check_in(pool: &mut Pool<Peer, ()>, session: Session<Peer, ()>) {
    if let Some(mut session) = pool.check_in(session) {
        match query_drop(&mut session.conn, &mut session.transport, RESET) {
            Some(answer) => pool.reset(session, answer),
            None => panic!("no answer to the reset"),
        }
    }
}

fn idle_count(pool: &mut Pool<Peer, ()>) -> usize {
    let mut taken = vec![];
    while let GetNext::Ping(session) = pool.get(GetOutcome::Begin) {
        taken.push(session);
    }
    let count = taken.len();
    while let Some(session) = taken.pop() {
        pool.reset(session, Ok(()));
    }
    count
}

const FATAL: &[u8] = b"SFATAL\0VFATAL\0C57P01\0Mterminating connection\0\0";

fn empty_statement() -> PreparedStatement {
    PreparedStatement { idx: 0, param_oids: vec![], row_desc_payload: None }
}

fn is_broken_error<T>(result: &Result<T, Error>) -> bool {
    matches!(result, Err(Error::ConnectionBroken))
}

#[test]
fn fatal_pipeline_errors_reject_continuation() {
    for sync in [false, true] {
        let (mut conn, mut peer) = connection();
        let fatal = message(b'E', FATAL);
        peer.will_respond(if sync { b'S' } else { b'H' }, &fatal);
        let mut pipeline = Pipeline::new_inner(&mut conn);
        let ticket = pipeline.exec("SELECT 42", ()).unwrap();
        // With Sync, leave an execution before it in the expectation queue.
        // Without Sync, there is no ReadyForQuery to consume at all.
        let _second = pipeline.exec("SELECT 99", ()).unwrap();
        let next = if sync { pipeline.sync() } else { pipeline.flush() };
        run_drop(&mut pipeline, &mut peer, next).unwrap().unwrap();
        let next = pipeline.claim(ticket);
        let error = run_drop(&mut pipeline, &mut peer, next).unwrap().unwrap_err();
        assert!(matches!(error, Error::Server(_)));
        assert!(error.is_connection_broken());
        assert!(is_broken_error(&pipeline.exec("SELECT 101", ())));
        assert!(matches!(pipeline.sync(), Next::Done(Err(Error::ConnectionBroken))));
        let next = pipeline.cleanup();
        run_drop(&mut pipeline, &mut peer, next).unwrap().unwrap();
        pipeline.abandon();
        assert!(conn.is_broken());
    }
}

#[test]
fn forgotten_pipeline_cannot_complete_pool_reset() {
    let (mut conn, mut peer) = connection();
    let response = [
        message(b'1', &[]),
        message(b'2', &[]),
        message(b'n', &[]),
        message(b'C', b"SELECT 1\0"),
    ]
    .concat();
    peer.will_respond(b'H', &response);
    peer.will_respond(b'S', &message(b'Z', b"I"));
    let mut pipeline = conn.pipeline().ok().unwrap();
    let ticket = pipeline.exec("SELECT 42", ()).unwrap();
    let next = pipeline.flush();
    run_drop(&mut pipeline, &mut peer, next).unwrap().unwrap();
    let next = pipeline.claim(ticket);
    run_drop(&mut pipeline, &mut peer, next).unwrap().unwrap();
    let next = pipeline.sync();
    run_drop(&mut pipeline, &mut peer, next).unwrap().unwrap();
    assert!(conn.is_broken());
    let mut pool = Pool::new(Opts::default());
    // The answer to the Sync is there, none to the reset.
    assert!(!peer.responses.is_empty());
    check_in(&mut pool, Session { transport: peer, conn });
    assert_eq!(idle_count(&mut pool), 0);
}

#[test]
fn abandoned_portal_callbacks_prevent_reuse() {
    for forget in [false, true] {
        let (mut conn, mut peer) = connection();
        let bind = [message(b'1', &[]), message(b'2', &[])].concat();
        peer.will_respond(b'H', &bind);
        let complete = [message(b'n', &[]), message(b'C', b"UPDATE 1\0")].concat();
        peer.will_respond(b'H', &complete);
        let stopped = exec_portal(&mut conn, &mut peer, "UPDATE t SET value = 42", |portal, peer| {
            portal_exec(portal, peer, 0).unwrap().unwrap();
            let handle = UnnamedPortal { conn: &mut *portal.conn };
            if forget {
                std::mem::forget(handle);
            } else {
                drop(handle);
            }
            None
        });
        assert!(stopped.is_none());
        assert!(conn.is_broken());
        assert!(is_broken_error(&ping(&mut conn, &mut peer).unwrap()));
        assert!(is_broken_error(&lowlevel_sync(&mut conn, &mut peer).unwrap()));
        let mut replacement = Pipeline::new_inner(&mut conn);
        assert!(matches!(replacement.sync(), Next::Done(Err(Error::ConnectionBroken))));
        assert!(matches!(replacement.cleanup(), Next::Done(Ok(()))));
    }
}

#[test]
fn cancellation_tests_completed_portal_scopes_preserve_reuse() {
    for callback_error in [false, true] {
        let (mut conn, mut peer) = connection();
        let bind = [message(b'1', &[]), message(b'2', &[])].concat();
        peer.will_respond(b'H', &bind);
        let suspended = [message(b'n', &[]), message(b's', &[])].concat();
        peer.will_respond(b'H', &suspended);
        let complete = [message(b'n', &[]), message(b'C', b"SELECT 1\0")].concat();
        peer.will_respond(b'H', &complete);
        peer.will_respond(b'S', &message(b'Z', b"I"));
        peer.will_respond(b'Q', &[message(b'I', &[]), message(b'Z', b"I")].concat());
        let result = exec_portal(&mut conn, &mut peer, "SELECT 42", |portal, peer| {
            assert!(portal_exec(portal, peer, 1).unwrap().unwrap());
            assert!(!portal_exec(portal, peer, 0).unwrap().unwrap());
            if callback_error {
                Some(Err(Error::InvalidUsage("callback stopped after fetch".into())))
            } else {
                Some(Ok(()))
            }
        })
        .unwrap();
        assert_eq!(result.is_err(), callback_error);
        assert!(!conn.is_broken());
        ping(&mut conn, &mut peer).unwrap().unwrap();
    }
}

/// The peer sends everything up to CommandComplete and withholds ReadyForQuery.
fn cancel_at_ready(conn: &mut Client, peer: &mut Peer, extended: bool) {
    let stopped = if extended {
        let response = [
            message(b'1', &[]),
            message(b'2', &[]),
            row_data(7, true),
            message(b'C', b"UPDATE 1\0"),
        ]
        .concat();
        peer.will_respond(b'S', &response);
        exec_drop(conn, peer, "UPDATE t SET value = $1 RETURNING value", int4(7))
    } else {
        peer.will_respond(b'Q', &message(b'C', b"DO\0"));
        query_drop(conn, peer, "DO $$ BEGIN PERFORM pg_sleep(0.3); END $$")
    };
    assert!(stopped.is_none(), "query completed before ReadyForQuery");
    assert!(peer.responses.is_empty());
}

fn cancelled_check_in(extended: bool) {
    let (mut conn, mut peer) = connection();
    cancel_at_ready(&mut conn, &mut peer, extended);
    assert!(conn.is_broken());
    peer.responses = message(b'Z', b"I");
    let mut pool = Pool::new(Opts::default());
    check_in(&mut pool, Session { transport: peer, conn });
    assert_eq!(
        idle_count(&mut pool),
        0,
        "an abandoned ReadyForQuery must not complete DISCARD ALL"
    );
}

#[test]
fn simple_cancellation_discards_connection() {
    cancelled_check_in(false);
}

#[test]
fn extended_cancellation_discards_connection() {
    cancelled_check_in(true);
}

#[test]
fn healthy_pool_reuse_and_distinct_results() {
    let (conn, mut peer) = connection();
    let pid = conn.connection_id();
    assert_eq!(pid, 123);
    let mut pool = Pool::new(Opts::default());
    let reset = [message(b'C', b"DISCARD ALL\0"), message(b'Z', b"I")].concat();
    peer.will_respond(b'Q', &reset);
    check_in(&mut pool, Session { transport: peer, conn });
    let mut session = match pool.get(GetOutcome::Begin) {
        GetNext::Ping(session) => session,
        _ => panic!("the connection is not idle"),
    };
    session.transport.will_respond(b'Q', &[message(b'I', &[]), message(b'Z', b"I")].concat());
    let answer = ping(&mut session.conn, &mut session.transport).unwrap();
    let mut borrowed = match pool.get(GetOutcome::Pinged(session, answer)) {
        GetNext::Done(Ok(borrowed)) => borrowed,
        _ => panic!("the connection has not answered"),
    };
    assert_eq!(borrowed.deref().conn.connection_id(), pid);
    for value in [42, 99] {
        let response = [rows(value, false), message(b'Z', b"I")].concat();
        let session = borrowed.deref_mut();
        session.transport.will_respond(b'Q', &response);
        let sql = format!("SELECT {value}");
        let result = query_collect(&mut session.conn, &mut session.transport, &sql).unwrap();
        assert_eq!(result.unwrap(), vec![value]);
    }
    let mut session = borrowed.into_session();
    session.transport.will_respond(b'Q', &reset);
    check_in(&mut pool, session);
    assert_eq!(idle_count(&mut pool), 1);
}

#[test]
fn pooled_drop_closes_without_cleanup_query() {
    let (conn, peer) = connection();
    let mut pool = Pool::new(Opts::default());
    let connected = GetOutcome::Connected(Ok(Session { transport: peer, conn }));
    let mut borrowed = match pool.get(connected) {
        GetNext::Done(Ok(borrowed)) => borrowed,
        _ => panic!("the connection was not handed out"),
    };
    let session = borrowed.deref_mut();
    cancel_at_ready(&mut session.conn, &mut session.transport, true);
    let session = borrowed.into_session();
    assert!(session.transport.requests.is_empty());
    assert!(
        pool.check_in(session).is_none(),
        "check-in must close without sending DISCARD ALL"
    );
    assert_eq!(idle_count(&mut pool), 0);
}

#[test]
fn retained_connection_rejects_all_entry_points() {
    let (mut conn, mut peer) = connection();
    cancel_at_ready(&mut conn, &mut peer, false);
    let stmt = empty_statement();
    let p = &mut peer;
    assert!(is_broken_error(&query_drop(&mut conn, p, "SELECT 42").unwrap()));
    assert!(is_broken_error(&exec_drop(&mut conn, p, "SELECT $1", int4(42)).unwrap()));
    assert!(is_broken_error(&prepare(&mut conn, p, "SELECT 42").unwrap()));
    assert!(is_broken_error(&prepare_batch(&mut conn, p, &[]).unwrap()));
    assert!(is_broken_error(&exec_batch(&mut conn, p, "SELECT $1", &[int4(42)]).unwrap()));
    assert!(is_broken_error(&close_statement(&mut conn, p, &stmt).unwrap()));
    assert!(is_broken_error(&lowlevel_bind(&mut conn, p, "", "").unwrap()));
    assert!(is_broken_error(&lowlevel_execute(&mut conn, p, "", 0).unwrap()));
    assert!(is_broken_error(&lowlevel_close_portal(&mut conn, p, "").unwrap()));
    assert!(is_broken_error(&conn.lowlevel_flush()));
    assert!(is_broken_error(&lowlevel_sync(&mut conn, p).unwrap()));
    assert!(is_broken_error(&exec_portal(&mut conn, p, "SELECT 42", |_, _| Some(Ok(()))).unwrap()));
    assert!(matches!(conn.pipeline().err(), Some(Error::ConnectionBroken)));
    assert!(peer.requests.is_empty());
}

#[test]
fn unpolled_future_does_not_poison_connection() {
    let (mut conn, peer) = connection();
    // An operation that is planned and not begun leaves no trace.
    let _ = conn.exec("SELECT $1").unwrap();
    let _ = conn.exec_batch("SELECT $1", &[int4(42)]).unwrap();
    drop(conn.pipeline().ok().unwrap());
    let mut pipeline = Pipeline::new_inner(&mut conn);
    let _ticket = pipeline.exec("SELECT 42", ()).unwrap();
    pipeline.abandon();
    assert!(!conn.is_broken());
    assert!(peer.requests.is_empty());
}

#[test]
fn consumed_sql_errors_preserve_reuse() {
    let (mut conn, mut peer) = connection();
    let error = [
        message(b'E', b"SERROR\0C22012\0Mdivision by zero\0\0"),
        message(b'Z', b"I"),
    ]
    .concat();
    peer.will_respond(b'Q', &error);
    let result = query_drop(&mut conn, &mut peer, "SELECT 1/0").unwrap();
    assert!(matches!(result, Err(Error::Server(_))));
    assert!(!conn.is_broken());
    peer.will_respond(b'S', &error);
    let result = exec_drop(&mut conn, &mut peer, "SELECT 1/$1", int4(0)).unwrap();
    assert!(matches!(result, Err(Error::Server(_))));
    assert!(!conn.is_broken());
    peer.will_respond(b'S', &error);
    let result = exec_batch(&mut conn, &mut peer, "SELECT 1/$1", &[int4(0)]).unwrap();
    assert!(matches!(result, Err(Error::Server(_))));
    assert!(!conn.is_broken());
    peer.will_respond(b'Q', &[rows(99, false), message(b'Z', b"I")].concat());
    let result = query_collect(&mut conn, &mut peer, "SELECT 99").unwrap();
    assert_eq!(result.unwrap(), vec![99]);
}

#[test]
fn cancellation_covers_prepare_batches_and_portals() {
    for operation in 0..10 {
        let (mut conn, mut peer) = connection();
        let stmt = empty_statement();
        let terminal = match operation {
            0..=3 | 7 => b'S',
            _ => b'H',
        };
        peer.will_respond(terminal, &[]);
        let (c, p) = (&mut conn, &mut peer);
        let stopped = match operation {
            0 => prepare(c, p, "SELECT 42").is_none(),
            1 => prepare_batch(c, p, &["SELECT 42"]).is_none(),
            2 => exec_batch(c, p, "SELECT $1", &[int4(42)]).is_none(),
            3 => close_statement(c, p, &stmt).is_none(),
            4 => lowlevel_bind(c, p, "", "").is_none(),
            5 => lowlevel_execute(c, p, "", 0).is_none(),
            6 => lowlevel_close_portal(c, p, "").is_none(),
            7 => lowlevel_sync(c, p).is_none(),
            8 => exec_portal(c, p, "SELECT 42", |_, _| Some(Ok(()))).is_none(),
            9 => create_named_portal(c, p, "p", "SELECT 42").is_none(),
            _ => panic!("unknown test case"),
        };
        assert!(stopped, "operation finished without a response");
        assert!(peer.script.is_empty(), "the request was not sent");
        assert!(conn.is_broken(), "operation {operation}");
        assert!(is_broken_error(&ping(&mut conn, &mut peer).unwrap()));
    }
}

#[test]
fn pipeline_cancellation_and_drop_cannot_lose_expectations() {
    for operation in 0..3 {
        let (mut conn, mut peer) = connection();
        peer.will_respond(b'S', &[]);
        let mut pipeline = Pipeline::new_inner(&mut conn);
        let ticket = pipeline.exec("SELECT $1", int4(42)).unwrap();
        let next = pipeline.sync();
        run_drop(&mut pipeline, &mut peer, next).unwrap().unwrap();
        match operation {
            0 => {
                let next = pipeline.claim(ticket);
                assert!(run_drop(&mut pipeline, &mut peer, next).is_none());
            }
            1 => {
                let next = pipeline.cleanup();
                assert!(
                    run_drop(&mut pipeline, &mut peer, next).is_none(),
                    "cleanup finished without responses"
                );
            }
            2 => {} // Drop between completed calls, with queued responses.
            _ => panic!("unknown test case"),
        }
        if operation != 2 {
            assert!(matches!(pipeline.sync(), Next::Done(Err(Error::ConnectionBroken))));
            // Must not attempt a new drain.
            assert!(matches!(pipeline.cleanup(), Next::Done(Ok(()))));
        }
        pipeline.abandon();
        assert!(conn.is_broken());
        assert!(is_broken_error(&ping(&mut conn, &mut peer).unwrap()));
    }
}

#[test]
fn pipeline_consumed_errors_and_unclaimed_results_stay_usable() {
    let (mut conn, mut peer) = connection();
    let mut pipeline = Pipeline::new_inner(&mut conn);
    let ticket = pipeline.exec("SELECT 1/$1", int4(0)).unwrap();
    let error = [
        message(b'E', b"SERROR\0C22012\0Mdivision by zero\0\0"),
        message(b'Z', b"I"),
    ]
    .concat();
    peer.will_respond(b'S', &error);
    let next = pipeline.claim(ticket);
    let result = run_drop(&mut pipeline, &mut peer, next).unwrap();
    assert!(matches!(result, Err(Error::Server(_))));
    let ticket = pipeline.exec("SELECT $1", int4(99)).unwrap();
    let response = [
        message(b'1', &[]),
        message(b'2', &[]),
        rows(99, true),
        message(b'Z', b"I"),
    ]
    .concat();
    peer.will_respond(b'S', &response);
    let mut values = vec![];
    let next = pipeline.claim(ticket);
    run(&mut pipeline, &mut peer, next, &mut |row| {
        let bytes: [u8; 4] = row.values[0].clone().unwrap().try_into().unwrap();
        values.push(i32::from_be_bytes(bytes));
        Ok(())
    })
    .unwrap()
    .unwrap();
    assert_eq!(values, vec![99]);
    let next = pipeline.cleanup();
    run_drop(&mut pipeline, &mut peer, next).unwrap().unwrap();
    pipeline.abandon();
    assert!(!conn.is_broken());

    // Cleanup must also handle unclaimed prepared results without access to
    // the ticket's cached RowDescription.
    let stmt = empty_statement();
    let mut pipeline = Pipeline::new_inner(&mut conn);
    let _ticket = pipeline.exec(&stmt, ()).unwrap();
    let response = [
        message(b'2', &[]),
        message(b'D', &[0, 1, 0, 0, 0, 4, 0, 0, 0, 42]),
        message(b'C', b"SELECT 1\0"),
        message(b'Z', b"I"),
    ]
    .concat();
    peer.will_respond(b'S', &response);
    let next = pipeline.cleanup();
    run_drop(&mut pipeline, &mut peer, next).unwrap().unwrap();
    pipeline.abandon();
    assert!(!conn.is_broken());
}

#[test]
fn callback_errors_decoding_errors_and_panics_poison_connection() {
    for mode in 0..4 {
        let (mut conn, mut peer) = connection();
        let response = [rows(42, false), message(b'Z', b"I")].concat();
        let mut callback = |_: &DataRow| {
            if mode == 2 {
                Err(Error::Decode("not a bool".into()))
            } else {
                Err(Error::InvalidUsage("callback stopped".into()))
            }
        };
        if mode == 1 {
            // A panic in the callback: the step that calls it never returns.
            conn.query("SELECT 42").unwrap();
            peer.will_respond(b'Q', &response);
            let mut machine = machine(frame(b'Q', b"SELECT 42\0"), &mut callback);
            for kind in [b'T', b'D'] {
                let step = machine.step(&mut conn);
                match conn.drive_step(step, TransactionStatus::Idle) {
                    Progress::Io(Demand::WriteRead) => peer.write(conn.write_buffer()),
                    Progress::Io(Demand::Read) => {}
                    _ => panic!("the query ended before its row"),
                }
                conn.receive(peer.read().unwrap());
                assert_eq!(conn.type_byte(), kind);
            }
        } else {
            let result = if mode == 3 {
                let response = [message(b'1', &[]), message(b'2', &[]), response].concat();
                peer.will_respond(b'S', &response);
                exec_foreach(&mut conn, &mut peer, "SELECT 42", (), &mut callback)
            } else {
                peer.will_respond(b'Q', &response);
                query_foreach(&mut conn, &mut peer, "SELECT 42", &mut callback)
            };
            assert!(result.unwrap().is_err());
        }
        assert!(conn.is_broken());
        assert!(is_broken_error(&ping(&mut conn, &mut peer).unwrap()));
    }
}

#[test]
fn partial_write_cancellation_poison_connection() {
    let (mut conn, mut peer) = connection();
    let sql = " ".repeat(4 * 1024 * 1024);
    conn.query(&sql).unwrap();
    let mut on_row = |_: &DataRow| Ok(());
    let mut machine = machine(frame(b'Q', &[sql.as_bytes(), b"\0"].concat()), &mut on_row);
    let step = machine.step(&mut conn);
    let progress = conn.drive_step(step, TransactionStatus::Idle);
    assert!(matches!(progress, Progress::Io(Demand::WriteRead)));
    // Only the first byte gets through.
    assert_eq!(conn.write_buffer()[0], b'Q');
    assert!(conn.is_broken());
    assert!(is_broken_error(&ping(&mut conn, &mut peer).unwrap()));
}

#[test]
fn cancellation_during_partial_message_read() {
    for prefix in [vec![b'Z', 0], vec![b'Z', 0, 0, 0, 5]] {
        let (mut conn, mut peer) = connection();
        peer.will_respond(b'Q', &[message(b'C', b"DO\0"), prefix.clone()].concat());
        let stopped = query_drop(&mut conn, &mut peer, "DO $$ BEGIN END $$");
        assert!(stopped.is_none(), "partial ReadyForQuery completed");
        assert_eq!(peer.responses, prefix);
        assert!(conn.is_broken());
        assert!(is_broken_error(&lowlevel_sync(&mut conn, &mut peer).unwrap()));
    }
}

#[test]
fn lowlevel_completion_boundaries_allow_continuation() {
    let (mut conn, mut peer) = connection();
    peer.will_respond(b'H', &[message(b'1', &[]), message(b'2', &[])].concat());
    create_named_portal(&mut conn, &mut peer, "p", "SELECT 42").unwrap().unwrap();
    assert!(!conn.is_broken()); // BindComplete, no ReadyForQuery yet.
    peer.will_respond(b'H', &[message(b'n', &[]), message(b's', &[])].concat());
    assert!(lowlevel_execute(&mut conn, &mut peer, "p", 1).unwrap().unwrap());
    assert!(!conn.is_broken()); // PortalSuspended, no ReadyForQuery yet.
    peer.will_respond(b'H', &[message(b'n', &[]), message(b'C', b"SELECT 1\0")].concat());
    assert!(!lowlevel_execute(&mut conn, &mut peer, "p", 0).unwrap().unwrap());
    assert!(!conn.is_broken()); // CommandComplete, no ReadyForQuery yet.
    peer.will_respond(b'H', &message(b'3', &[]));
    lowlevel_close_portal(&mut conn, &mut peer, "p").unwrap().unwrap();
    assert!(!conn.is_broken());
    peer.will_respond(b'S', &message(b'Z', b"I"));
    lowlevel_sync(&mut conn, &mut peer).unwrap().unwrap();
    assert!(!conn.is_broken());
}

#[test]
fn early_server_error_does_not_clear_unfinished_exchange() {
    for batch in [false, true] {
        let (mut conn, mut peer) = connection();
        let response = message(b'E', b"SERROR\0C42601\0Msyntax error\0\0");
        let result = if batch {
            peer.will_respond(b'S', &response);
            prepare_batch(&mut conn, &mut peer, &["invalid SQL"])
        } else {
            peer.will_respond(b'H', &response);
            lowlevel_bind(&mut conn, &mut peer, "p", "missing")
        };
        assert!(matches!(result.unwrap(), Err(Error::Server(_))));
        assert!(conn.is_broken());
        assert!(is_broken_error(&ping(&mut conn, &mut peer).unwrap()));
    }
}

#[test]
fn pipeline_decode_error_cannot_be_hidden_by_cleanup() {
    let (mut conn, mut peer) = connection();
    let mut pipeline = Pipeline::new_inner(&mut conn);
    let ticket = pipeline.exec("SELECT 42", ()).unwrap();
    let response = [
        message(b'1', &[]),
        message(b'2', &[]),
        rows(42, true),
        message(b'Z', b"I"),
    ]
    .concat();
    peer.will_respond(b'S', &response);
    let next = pipeline.claim(ticket);
    let result = run(&mut pipeline, &mut peer, next, &mut |_| {
        Err(Error::Decode("not a bool".into()))
    })
    .unwrap();
    assert!(matches!(result, Err(Error::Decode(_))));
    let next = pipeline.cleanup();
    run_drop(&mut pipeline, &mut peer, next).unwrap().unwrap();
    assert!(matches!(pipeline.sync(), Next::Done(Err(Error::ConnectionBroken))));
    pipeline.abandon();
    assert!(conn.is_broken());
}

#[test]
fn forgetting_an_inflight_future_does_not_restore_reuse() {
    let (mut conn, mut peer) = connection();
    peer.will_respond(b'Q', &[]);
    let stopped = query_drop(&mut conn, &mut peer, "SELECT 42");
    assert!(stopped.is_none(), "query finished without a response");
    assert!(conn.is_broken());
    assert!(is_broken_error(&query_drop(&mut conn, &mut peer, "SELECT 99").unwrap()));
}

#[test]
fn fatal_pipeline_error_must_reject_further_operations() {
    let (mut conn, mut peer) = connection();
    let mut pipeline = Pipeline::new_inner(&mut conn);
    let ticket = pipeline.exec("SELECT 42", ()).unwrap();
    peer.will_respond(b'H', &message(b'E', FATAL));
    let next = pipeline.flush();
    run_drop(&mut pipeline, &mut peer, next).unwrap().unwrap();
    let next = pipeline.claim(ticket);
    let error = run_drop(&mut pipeline, &mut peer, next).unwrap().unwrap_err();
    assert!(error.is_connection_broken());
    assert!(
        is_broken_error(&pipeline.exec("SELECT 99", ())),
        "FATAL was consumed, but the pipeline accepts another operation"
    );
}

#[test]
fn forgotten_pipeline_future_must_not_restore_reuse() {
    let (mut conn, mut peer) = connection();
    let response = [message(b'1', &[]), message(b'2', &[]), rows(42, true)].concat();
    peer.will_respond(b'H', &response);
    peer.will_respond(b'S', &message(b'Z', b"I"));
    let mut pipeline = conn.pipeline().ok().unwrap();
    let ticket = pipeline.exec("SELECT 42", ()).unwrap();
    let next = pipeline.flush();
    run_drop(&mut pipeline, &mut peer, next).unwrap().unwrap();
    let next = pipeline.claim(ticket);
    run_drop(&mut pipeline, &mut peer, next).unwrap().unwrap();
    let next = pipeline.sync();
    run_drop(&mut pipeline, &mut peer, next).unwrap().unwrap();
    assert!(conn.is_broken());
    let mut pool = Pool::new(Opts::default());
    check_in(&mut pool, Session { transport: peer, conn });
    assert_eq!(
        idle_count(&mut pool),
        0,
        "abandoned pipeline ReadyForQuery completed pool reset"
    );
}

#[test]
fn cancelled_portal_callback_must_not_restore_reuse() {
    let (mut conn, mut peer) = connection();
    peer.will_respond(b'H', &[message(b'1', &[]), message(b'2', &[])].concat());
    peer.will_respond(b'H', &[message(b'n', &[]), message(b'C', b"UPDATE 1\0")].concat());
    let stopped = exec_portal(&mut conn, &mut peer, "UPDATE t SET value = 42", |portal, peer| {
        assert!(!portal_exec(portal, peer, 0).unwrap().unwrap());
        None
    });
    assert!(stopped.is_none(), "portal unexpectedly finished");
    assert!(
        conn.is_broken(),
        "portal dropped before its final Sync, but Conn is reusable"
    );
}

#[test]
fn fresh_pipeline_cannot_recover_abandoned_scope() {
    let (mut conn, mut peer) = connection();
    let mut pipeline = Pipeline::new_inner(&mut conn);
    let next = pipeline.sync();
    run_drop(&mut pipeline, &mut peer, next).unwrap().unwrap();
    assert!(conn.is_broken());
    assert!(is_broken_error(&lowlevel_sync(&mut conn, &mut peer).unwrap()));
    assert!(is_broken_error(&conn.lowlevel_flush()));
    let mut replacement = Pipeline::new_inner(&mut conn);
    assert!(is_broken_error(&replacement.exec("SELECT 99", ())));
    assert!(matches!(replacement.sync(), Next::Done(Err(Error::ConnectionBroken))));
    assert!(matches!(replacement.cleanup(), Next::Done(Ok(()))));
    replacement.abandon();
    assert!(conn.is_broken());
}

#[test]
fn completed_portal_scopes_preserve_reuse() {
    for callback_error in [false, true] {
        let (mut conn, mut peer) = connection();
        peer.will_respond(b'H', &[message(b'1', &[]), message(b'2', &[])].concat());
        peer.will_respond(b'H', &[message(b'n', &[]), message(b's', &[])].concat());
        peer.will_respond(b'H', &[message(b'n', &[]), message(b'C', b"SELECT 1\0")].concat());
        peer.will_respond(b'S', &message(b'Z', b"I"));
        let result = exec_portal(&mut conn, &mut peer, "SELECT 42", |portal, peer| {
            assert!(portal_exec(portal, peer, 1).unwrap().unwrap());
            assert!(!portal_exec(portal, peer, 0).unwrap().unwrap());
            if callback_error {
                Some(Err(Error::InvalidUsage("callback stopped after fetch".into())))
            } else {
                Some(Ok(()))
            }
        })
        .unwrap();
        assert_eq!(result.is_err(), callback_error);
        assert!(!conn.is_broken());
        peer.will_respond(b'Q', &[rows(99, false), message(b'Z', b"I")].concat());
        let result = query_collect(&mut conn, &mut peer, "SELECT 99").unwrap();
        assert_eq!(result.unwrap(), vec![99]);
    }
}

#[test]
fn forgotten_and_panicking_portal_callbacks_prevent_reuse() {
    for panicking in [false, true] {
        let (mut conn, mut peer) = connection();
        peer.will_respond(b'H', &[message(b'1', &[]), message(b'2', &[])].concat());
        let mut entered = false;
        let stopped = exec_portal(&mut conn, &mut peer, "SELECT 42", |portal, _| {
            entered = true;
            if !panicking {
                std::mem::forget(UnnamedPortal { conn: &mut *portal.conn });
            }
            None
        });
        assert!(stopped.is_none(), "portal unexpectedly finished");
        assert!(entered);
        assert!(conn.is_broken());
        assert!(is_broken_error(&ping(&mut conn, &mut peer).unwrap()));
        assert!(is_broken_error(&lowlevel_sync(&mut conn, &mut peer).unwrap()));
    }
}
