//! Low-level exchanges: Flush, Sync, Bind, Execute and Close, one message at a time.
//!
//! An exchange begins with messages in the write buffer, which the transport writes. Then each
//! message that the transport reads is handed to the exchange, until it is done.

use vstd::prelude::*;
use vstd::string::*;

use crate::conn::drive::{failed, Demand, DemandView, Progress, ProgressView};
use crate::conn::{Conn, ConnView};
use crate::error::{ends_session, outcome, Error, ErrorView};
use crate::params::{copy_bytes, ToParams};
use crate::protocol::backend::{
    async_of, asynchronous, columns_of, complete_of, empty_of, error_of, is_async_type, parse_columns,
    parse_complete, parse_empty, parse_error, parse_ready, parse_row, ready_of, row_of, ColumnView,
    CommandComplete, DataRow, Message, RowDescription, BIND_COMPLETE, CLOSE_COMPLETE,
    COMMAND_COMPLETE, DATA_ROW, ERROR_RESPONSE, NO_DATA, PORTAL_SUSPENDED, READY_FOR_QUERY,
    ROW_DESCRIPTION,
};
use crate::protocol::frontend::{
    bind_frame, close_portal_frame, describe_portal_frame, execute_frame, flush_frame, sync_frame,
    terminate_frame, write_bind, write_close_portal, write_describe_portal, write_execute,
    write_flush, write_sync, write_terminate,
};
use crate::text::{quote, quoted};
use crate::types::{AsyncMessage, AsyncMessageView, TransactionStatus};

verus! {

impl<H> ConnView<H> {
    /// The connection after it has read a message.
    pub open spec fn with_message(self, message: Message) -> ConnView<H> {
        ConnView {
            type_byte: message.type_byte,
            read_buffer: message.payload@,
            ..self
        }
    }

    /// How to go on reading after the message that was read last: the handler hears of it first,
    /// where it is for the handler.
    pub open spec fn read_on(self) -> DemandView {
        match self.heard() {
            Some(m) => DemandView::NotifyRead(m),
            None => DemandView::Read,
        }
    }
}

impl<H> Conn<H> {
    fn read_on(&self) -> (d: Demand)
        ensures
            d@ == self@.read_on(),
    {
        match self.heard() {
            Some(m) => Demand::NotifyRead(m),
            None => Demand::Read,
        }
    }
}

/// The error of an ErrorResponse: what the server reports, or that it cannot be decoded.
pub open spec fn reported(payload: Seq<u8>) -> ErrorView {
    match error_of(payload) {
        Ok(fields) => ErrorView::Server(fields),
        Err(e) => e,
    }
}

pub(crate) fn report(payload: &[u8]) -> (e: Error)
    ensures
        e@ == reported(payload@),
{
    match parse_error(payload) {
        Ok(error) => Error::Server(error),
        Err(e) => e,
    }
}

/// What a message means to a Sync that waits for ReadyForQuery.
pub enum SyncTurn {
    /// Nothing to the Sync; read on.
    Ignore,
    /// The end, with the transaction status.
    Ready(TransactionStatus),
    /// A server error to report at the end.
    Remember(ErrorView),
    /// The end of the session.
    Fatal(ErrorView),
    /// A message that cannot be decoded.
    Malformed(ErrorView),
}

pub open spec fn sync_turn(message: Message) -> SyncTurn {
    if asynchronous(message.type_byte) {
        SyncTurn::Ignore
    } else if message.type_byte == READY_FOR_QUERY {
        match ready_of(message.payload@) {
            Ok(status) => SyncTurn::Ready(status),
            Err(e) => SyncTurn::Malformed(e),
        }
    } else if message.type_byte == ERROR_RESPONSE {
        match error_of(message.payload@) {
            Ok(fields) => if ends_session(fields) {
                SyncTurn::Fatal(ErrorView::Server(fields))
            } else {
                SyncTurn::Remember(ErrorView::Server(fields))
            },
            Err(e) => SyncTurn::Malformed(e),
        }
    } else {
        SyncTurn::Ignore
    }
}

impl<H> ConnView<H> {
    /// The connection after a message for a Sync. Only ReadyForQuery ends the exchange.
    pub open spec fn after_sync(self, message: Message) -> ConnView<H> {
        let v = self.with_message(message);
        match sync_turn(message) {
            SyncTurn::Ready(status) => ConnView {
                transaction_status: status,
                in_progress: false,
                ..v
            },
            SyncTurn::Fatal(_) => ConnView { broken: true, ..v },
            _ => v,
        }
    }

    /// How far a Sync has come after a message, with this server error to report at its end.
    pub open spec fn sync_progress(self, message: Message, pending: Option<ErrorView>) ->
        ProgressView<()> {
        match sync_turn(message) {
            SyncTurn::Ignore => ProgressView::Io(self.with_message(message).read_on()),
            SyncTurn::Ready(_) => ProgressView::Done(
                match pending {
                    Some(e) => Err(e),
                    None => Ok(()),
                },
            ),
            SyncTurn::Remember(_) => ProgressView::Io(DemandView::Read),
            SyncTurn::Fatal(e) => failed(e),
            SyncTurn::Malformed(e) => failed(e),
        }
    }
}

/// A Sync that waits for ReadyForQuery.
pub struct SyncExchange {
    pending_error: Option<Error>,
}

impl View for SyncExchange {
    type V = Option<ErrorView>;

    /// The server error to report at the end.
    closed spec fn view(&self) -> Option<ErrorView> {
        match self.pending_error {
            Some(e) => Some(e@),
            None => None,
        }
    }
}

impl SyncExchange {
    /// Takes a message, or the failure to read one.
    pub fn received<H>(&mut self, conn: &mut Conn<H>, message: Result<Message, Error>) -> (p:
        Progress<()>)
        ensures
            match message {
                Err(e) => p@ == failed::<()>(e@) && final(conn)@ == old(conn)@ && final(self)@
                    == old(self)@,
                Ok(m) => {
                    &&& p@ == old(conn)@.sync_progress(m, old(self)@)
                    &&& final(conn)@ == old(conn)@.after_sync(m)
                    &&& final(self)@ == match sync_turn(m) {
                        SyncTurn::Remember(e) => Some(e),
                        SyncTurn::Ready(_) => None,
                        _ => old(self)@,
                    }
                },
            },
    {
        let message = match message {
            Ok(m) => m,
            Err(e) => return Progress::Done(Err(e)),
        };
        conn.receive(message);
        let type_byte: u8 = conn.type_byte();
        if is_async_type(type_byte) {
            return Progress::Io(conn.read_on());
        }
        if type_byte == READY_FOR_QUERY {
            match parse_ready(conn.read_buffer()) {
                Ok(status) => {
                    conn.set_transaction_status(status);
                    conn.finish_exchange();
                    match self.pending_error.take() {
                        Some(e) => Progress::Done(Err(e)),
                        None => Progress::Done(Ok(())),
                    }
                },
                Err(e) => Progress::Done(Err(e)),
            }
        } else if type_byte == ERROR_RESPONSE {
            match parse_error(conn.read_buffer()) {
                Ok(error) => {
                    let error = Error::Server(error);
                    if error.is_connection_broken() {
                        conn.mark_broken();
                        return Progress::Done(Err(error));
                    }
                    self.pending_error = Some(error);
                    Progress::Io(Demand::Read)
                },
                Err(e) => Progress::Done(Err(e)),
            }
        } else {
            Progress::Io(Demand::Read)
        }
    }
}

/// What a message means to an exchange that waits for a single confirmation.
pub enum ReplyTurn {
    /// Nothing to the exchange; read on.
    Ignore,
    /// The confirmation.
    Complete,
    /// The end of the exchange without its confirmation.
    Failed(ErrorView),
}

/// The message of type `kind`, named `name`, is the confirmation.
pub open spec fn reply_turn(message: Message, kind: u8, name: Seq<char>) -> ReplyTurn {
    if asynchronous(message.type_byte) {
        ReplyTurn::Ignore
    } else if message.type_byte == kind {
        match empty_of(message.payload@, name) {
            Ok(()) => ReplyTurn::Complete,
            Err(e) => ReplyTurn::Failed(e),
        }
    } else if message.type_byte == ERROR_RESPONSE {
        ReplyTurn::Failed(reported(message.payload@))
    } else {
        ReplyTurn::Failed(
            ErrorView::LibraryBug(
                quoted("Expected "@ + name + " or ErrorResponse, got "@, message.type_byte),
            ),
        )
    }
}

impl<H> ConnView<H> {
    /// The connection after a message for an exchange that waits for a single confirmation.
    pub open spec fn after_reply(self, message: Message, kind: u8, name: Seq<char>) -> ConnView<H> {
        let v = self.with_message(message);
        if reply_turn(message, kind, name) is Complete {
            ConnView { in_progress: false, ..v }
        } else {
            v
        }
    }

    /// How far an exchange that waits for a single confirmation has come after a message.
    pub open spec fn reply_progress(self, message: Message, kind: u8, name: Seq<char>) ->
        ProgressView<()> {
        match reply_turn(message, kind, name) {
            ReplyTurn::Ignore => ProgressView::Io(self.with_message(message).read_on()),
            ReplyTurn::Complete => ProgressView::Done(Ok(())),
            ReplyTurn::Failed(e) => failed(e),
        }
    }
}

/// An exchange that waits for a single confirmation.
pub struct ReplyExchange {
    kind: u8,
    name: &'static str,
}

impl ReplyExchange {
    /// The type of the confirmation.
    pub closed spec fn expects(&self) -> u8 {
        self.kind
    }

    /// The name of the confirmation.
    pub closed spec fn named(&self) -> Seq<char> {
        self.name@
    }

    /// Takes a message, or the failure to read one.
    ///
    /// A server error ends the exchange and leaves it unfinished: the server skips everything
    /// up to the next Sync.
    pub fn received<H>(&mut self, conn: &mut Conn<H>, message: Result<Message, Error>) -> (p:
        Progress<()>)
        ensures
            *final(self) == *old(self),
            match message {
                Err(e) => p@ == failed::<()>(e@) && final(conn)@ == old(conn)@,
                Ok(m) => {
                    &&& p@ == old(conn)@.reply_progress(
                        m,
                        old(self).expects(),
                        old(self).named(),
                    )
                    &&& final(conn)@ == old(conn)@.after_reply(
                        m,
                        old(self).expects(),
                        old(self).named(),
                    )
                },
            },
    {
        let message = match message {
            Ok(m) => m,
            Err(e) => return Progress::Done(Err(e)),
        };
        conn.receive(message);
        let type_byte: u8 = conn.type_byte();
        if is_async_type(type_byte) {
            return Progress::Io(conn.read_on());
        }
        if type_byte == self.kind {
            match parse_empty(conn.read_buffer(), self.name) {
                Ok(()) => {
                    conn.finish_exchange();
                    Progress::Done(Ok(()))
                },
                Err(e) => Progress::Done(Err(e)),
            }
        } else if type_byte == ERROR_RESPONSE {
            Progress::Done(Err(report(conn.read_buffer())))
        } else {
            let text = String::from_str("Expected ").concat(self.name).concat(
                " or ErrorResponse, got ",
            );
            Progress::Done(Err(Error::LibraryBug(quote(text.as_str(), type_byte))))
        }
    }
}

/// How far the execution of a portal has come.
#[derive(Debug)]
pub enum Fetch {
    /// Read a message.
    Read,
    /// Hand the message to the handler of asynchronous messages, then read a message.
    Notify(AsyncMessage),
    /// Tell the handler the columns, and report its answer.
    ResultStart(RowDescription),
    /// Hand the row to the handler, and report its answer.
    Row(RowDescription, DataRow),
    /// Tell the handler that the command has completed, and report its answer.
    ResultEnd(CommandComplete),
    /// The execution is over; `true` where the portal has more rows.
    Done(Result<bool, Error>),
}

/// A fetch with its contents as mathematical values.
pub enum FetchView {
    Read,
    Notify(AsyncMessageView),
    ResultStart(Seq<ColumnView>),
    Row(Seq<ColumnView>, Seq<Option<Seq<u8>>>),
    ResultEnd(Seq<u8>),
    Done(Result<bool, ErrorView>),
}

impl View for Fetch {
    type V = FetchView;

    open spec fn view(&self) -> FetchView {
        match self {
            Fetch::Read => FetchView::Read,
            Fetch::Notify(m) => FetchView::Notify(m@),
            Fetch::ResultStart(columns) => FetchView::ResultStart(columns@),
            Fetch::Row(columns, row) => FetchView::Row(columns@, row@),
            Fetch::ResultEnd(complete) => FetchView::ResultEnd(complete.tag@),
            Fetch::Done(r) => FetchView::Done(outcome(*r)),
        }
    }
}

/// What a message means to the execution of a portal whose columns were described by `columns`.
pub open spec fn fetch_turn(message: Message, columns: Seq<u8>) -> FetchView {
    let payload = message.payload@;
    let kind = message.type_byte;
    if asynchronous(kind) {
        FetchView::Read
    } else if kind == ROW_DESCRIPTION {
        match columns_of(payload) {
            Ok(c) => FetchView::ResultStart(c),
            Err(e) => FetchView::Done(Err(e)),
        }
    } else if kind == NO_DATA {
        match empty_of(payload, "NoData"@) {
            Ok(()) => FetchView::Read,
            Err(e) => FetchView::Done(Err(e)),
        }
    } else if kind == DATA_ROW {
        match (columns_of(columns), row_of(payload)) {
            (Ok(c), Ok(row)) => FetchView::Row(c, row),
            (Err(e), _) => FetchView::Done(Err(e)),
            (Ok(_), Err(e)) => FetchView::Done(Err(e)),
        }
    } else if kind == COMMAND_COMPLETE {
        match complete_of(payload) {
            Ok(tag) => FetchView::ResultEnd(tag),
            Err(e) => FetchView::Done(Err(e)),
        }
    } else if kind == PORTAL_SUSPENDED {
        match empty_of(payload, "PortalSuspended"@) {
            Ok(()) => FetchView::Done(Ok(true)),
            Err(e) => FetchView::Done(Err(e)),
        }
    } else if kind == ERROR_RESPONSE {
        FetchView::Done(Err(reported(payload)))
    } else {
        FetchView::Done(
            Err(ErrorView::LibraryBug(quoted("Unexpected message in execute: "@, kind))),
        )
    }
}

impl<H> ConnView<H> {
    /// The connection after a message for the execution of a portal whose columns were described
    /// by `columns`.
    pub open spec fn after_fetch(self, message: Message, columns: Seq<u8>) -> ConnView<H> {
        let v = self.with_message(message);
        if fetch_turn(message, columns) == FetchView::Done(Ok(true)) {
            ConnView { in_progress: false, ..v }
        } else {
            v
        }
    }

    /// How far the execution of a portal has come after a message.
    pub open spec fn fetch_progress(self, message: Message, columns: Seq<u8>) -> FetchView {
        match self.with_message(message).heard() {
            Some(m) => FetchView::Notify(m),
            None => fetch_turn(message, columns),
        }
    }
}

/// The execution of a portal.
pub struct ExecuteExchange {
    column_buffer: Vec<u8>,
    ending: bool,
}

impl ExecuteExchange {
    /// The RowDescription that the rows go by.
    pub closed spec fn columns(&self) -> Seq<u8> {
        self.column_buffer@
    }

    /// The handler was told that the command has completed.
    pub closed spec fn ending(&self) -> bool {
        self.ending
    }

    /// Takes a message, or the failure to read one.
    pub fn received<H>(&mut self, conn: &mut Conn<H>, message: Result<Message, Error>) -> (f:
        Fetch)
        ensures
            match message {
                Err(e) => f@ == FetchView::Done(Err(e@)) && final(conn)@ == old(conn)@
                    && *final(self) == *old(self),
                Ok(m) => {
                    &&& f@ == old(conn)@.fetch_progress(m, old(self).columns())
                    &&& final(conn)@ == old(conn)@.after_fetch(m, old(self).columns())
                    &&& final(self).columns() == (if m.type_byte == ROW_DESCRIPTION {
                        m.payload@
                    } else {
                        old(self).columns()
                    })
                    &&& final(self).ending() == (f@ is ResultEnd)
                },
            },
    {
        let message = match message {
            Ok(m) => m,
            Err(e) => return Fetch::Done(Err(e)),
        };
        conn.receive(message);
        self.ending = false;
        let type_byte: u8 = conn.type_byte();
        if is_async_type(type_byte) {
            return match conn.heard() {
                Some(m) => Fetch::Notify(m),
                None => Fetch::Read,
            };
        }
        if type_byte == ROW_DESCRIPTION {
            self.column_buffer = copy_bytes(conn.read_buffer());
            match parse_columns(self.column_buffer.as_slice()) {
                Ok(columns) => Fetch::ResultStart(columns),
                Err(e) => Fetch::Done(Err(e)),
            }
        } else if type_byte == NO_DATA {
            match parse_empty(conn.read_buffer(), "NoData") {
                Ok(()) => Fetch::Read,
                Err(e) => Fetch::Done(Err(e)),
            }
        } else if type_byte == DATA_ROW {
            let columns = match parse_columns(self.column_buffer.as_slice()) {
                Ok(columns) => columns,
                Err(e) => return Fetch::Done(Err(e)),
            };
            match parse_row(conn.read_buffer()) {
                Ok(row) => Fetch::Row(columns, row),
                Err(e) => Fetch::Done(Err(e)),
            }
        } else if type_byte == COMMAND_COMPLETE {
            match parse_complete(conn.read_buffer()) {
                Ok(complete) => {
                    self.ending = true;
                    Fetch::ResultEnd(complete)
                },
                Err(e) => Fetch::Done(Err(e)),
            }
        } else if type_byte == PORTAL_SUSPENDED {
            match parse_empty(conn.read_buffer(), "PortalSuspended") {
                Ok(()) => {
                    conn.finish_exchange();
                    Fetch::Done(Ok(true))
                },
                Err(e) => Fetch::Done(Err(e)),
            }
        } else if type_byte == ERROR_RESPONSE {
            Fetch::Done(Err(report(conn.read_buffer())))
        } else {
            Fetch::Done(
                Err(Error::LibraryBug(quote("Unexpected message in execute: ", type_byte))),
            )
        }
    }

    /// Takes the answer of the handler. An error of the handler ends the exchange and leaves it
    /// unfinished.
    pub fn called_back<H>(&mut self, conn: &mut Conn<H>, answer: Result<(), Error>) -> (f: Fetch)
        ensures
            *final(self) == *old(self),
            match answer {
                Err(e) => f@ == FetchView::Done(Err(e@)) && final(conn)@ == old(conn)@,
                Ok(()) => if old(self).ending() {
                    f@ == FetchView::Done(Ok(false)) && final(conn)@ == (ConnView {
                        in_progress: false,
                        ..old(conn)@
                    })
                } else {
                    f@ == FetchView::Read && final(conn)@ == old(conn)@
                },
            },
    {
        match answer {
            Err(e) => Fetch::Done(Err(e)),
            Ok(()) => if self.ending {
                conn.finish_exchange();
                Fetch::Done(Ok(false))
            } else {
                Fetch::Read
            },
        }
    }
}

impl<H> Conn<H> {
    /// Close the connection gracefully: the messages to write before the transport is closed.
    pub fn close(&mut self) -> (r: Result<(), Error>)
        ensures
            old(self)@.usable() ==> r is Ok && final(self)@ == (ConnView {
                write_buffer: terminate_frame(),
                ..old(self)@
            }),
            !old(self)@.usable() ==> outcome(r) == Err::<(), _>(ErrorView::ConnectionBroken)
                && final(self)@ == old(self)@,
    {
        if let Err(e) = self.ensure_usable() {
            return Err(e);
        }
        let buf = self.write_buffer_mut();
        buf.clear();
        write_terminate(buf);
        assert(Seq::<u8>::empty() + terminate_frame() =~= terminate_frame());
        Ok(())
    }

    /// Low-level flush: send FLUSH to force the server to send pending responses.
    pub fn lowlevel_flush(&mut self) -> (r: Result<(), Error>)
        ensures
            old(self)@.usable() ==> r is Ok && final(self)@ == (ConnView {
                write_buffer: flush_frame(),
                in_progress: true,
                ..old(self)@
            }),
            !old(self)@.usable() ==> outcome(r) == Err::<(), _>(ErrorView::ConnectionBroken)
                && final(self)@ == old(self)@,
    {
        if let Err(e) = self.ensure_usable() {
            return Err(e);
        }
        let buf = self.write_buffer_mut();
        buf.clear();
        write_flush(buf);
        assert(Seq::<u8>::empty() + flush_frame() =~= flush_frame());
        self.begin_exchange()
    }

    /// Takes whether FLUSH was written. A failed write leaves the exchange unfinished.
    pub fn flush_sent(&mut self, written: Result<(), Error>) -> (r: Result<(), Error>)
        ensures
            r == written,
            final(self)@ == (if written is Ok {
                ConnView { in_progress: false, ..old(self)@ }
            } else {
                old(self)@
            }),
    {
        if written.is_ok() {
            self.finish_exchange();
        }
        written
    }

    /// Low-level sync: send SYNC and receive ReadyForQuery.
    pub fn lowlevel_sync(&mut self) -> (r: Result<SyncExchange, Error>)
        ensures
            old(self)@.usable() ==> (r matches Ok(x) && x@ is None) && final(self)@ == (ConnView {
                write_buffer: sync_frame(),
                in_progress: true,
                ..old(self)@
            }),
            !old(self)@.usable() ==> outcome(r) == Err::<SyncExchange, _>(
                ErrorView::ConnectionBroken,
            ) && final(self)@ == old(self)@,
    {
        if let Err(e) = self.ensure_usable() {
            return Err(e);
        }
        self.sync_inner()
    }

    /// A Sync that may also end the open scope.
    pub fn sync_inner(&mut self) -> (r: Result<SyncExchange, Error>)
        ensures
            final(self)@ == (ConnView {
                write_buffer: sync_frame(),
                in_progress: final(self)@.in_progress,
                ..old(self)@
            }),
            old(self)@.ready() ==> (r matches Ok(x) && x@ is None) && final(self)@.in_progress,
            !old(self)@.ready() ==> outcome(r) == Err::<SyncExchange, _>(
                ErrorView::ConnectionBroken,
            ) && final(self)@.in_progress == old(self)@.in_progress,
    {
        let buf = self.write_buffer_mut();
        buf.clear();
        write_sync(buf);
        assert(Seq::<u8>::empty() + sync_frame() =~= sync_frame());
        match self.begin_exchange() {
            Ok(()) => Ok(SyncExchange { pending_error: None }),
            Err(e) => Err(e),
        }
    }

    /// Low-level bind: send BIND message and receive BindComplete.
    pub fn lowlevel_bind<P: ToParams>(
        &mut self,
        portal: &str,
        statement_name: &str,
        params: &P,
    ) -> (r: Result<ReplyExchange, Error>)
        ensures
            !old(self)@.usable() ==> outcome(r) == Err::<ReplyExchange, _>(
                ErrorView::ConnectionBroken,
            ) && final(self)@ == old(self)@,
            old(self)@.usable() ==> match params.encoded(params.natural()) {
                Ok(values) => (r matches Ok(x) && x.expects() == BIND_COMPLETE && x.named()
                    == "BindComplete"@) && final(self)@ == (ConnView {
                    write_buffer: bind_frame(portal@, statement_name@, values) + flush_frame(),
                    in_progress: true,
                    ..old(self)@
                }),
                Err(e) => outcome(r) == Err::<ReplyExchange, _>(e) && final(self)@ == (ConnView {
                    write_buffer: Seq::empty(),
                    ..old(self)@
                }),
            },
    {
        if let Err(e) = self.ensure_usable() {
            return Err(e);
        }
        self.bind_inner(portal, statement_name, params)
    }

    /// A Bind on a connection that is ready.
    pub fn bind_inner<P: ToParams>(
        &mut self,
        portal: &str,
        statement_name: &str,
        params: &P,
    ) -> (r: Result<ReplyExchange, Error>)
        ensures
            match params.encoded(params.natural()) {
                Ok(values) => {
                    &&& final(self)@ == (ConnView {
                        write_buffer: bind_frame(portal@, statement_name@, values) + flush_frame(),
                        in_progress: final(self)@.in_progress,
                        ..old(self)@
                    })
                    &&& old(self)@.ready() ==> (r matches Ok(x) && x.expects() == BIND_COMPLETE
                        && x.named() == "BindComplete"@) && final(self)@.in_progress
                    &&& !old(self)@.ready() ==> outcome(r) == Err::<ReplyExchange, _>(
                        ErrorView::ConnectionBroken,
                    ) && final(self)@.in_progress == old(self)@.in_progress
                },
                Err(e) => outcome(r) == Err::<ReplyExchange, _>(e) && final(self)@ == (ConnView {
                    write_buffer: Seq::empty(),
                    ..old(self)@
                }),
            },
    {
        let oids = params.natural_oids();
        let buf = self.write_buffer_mut();
        buf.clear();
        if let Err(e) = write_bind(buf, portal, statement_name, params, oids.as_slice()) {
            return Err(e);
        }
        write_flush(buf);
        proof {
            let values = params.encoded(params.natural())->Ok_0;
            let bind = bind_frame(portal@, statement_name@, values);
            assert(Seq::<u8>::empty() + bind + flush_frame() =~= bind + flush_frame());
        }
        match self.begin_exchange() {
            Ok(()) => Ok(ReplyExchange { kind: BIND_COMPLETE, name: "BindComplete" }),
            Err(e) => Err(e),
        }
    }

    /// Low-level execute: send EXECUTE message and receive results.
    pub fn lowlevel_execute(&mut self, portal: &str, max_rows: u32) -> (r: Result<
        ExecuteExchange,
        Error,
    >)
        ensures
            old(self)@.usable() ==> (r matches Ok(x) && x.columns() == Seq::<u8>::empty()
                && !x.ending()) && final(self)@ == (ConnView {
                write_buffer: describe_portal_frame(portal@) + execute_frame(portal@, max_rows)
                    + flush_frame(),
                in_progress: true,
                ..old(self)@
            }),
            !old(self)@.usable() ==> outcome(r) == Err::<ExecuteExchange, _>(
                ErrorView::ConnectionBroken,
            ) && final(self)@ == old(self)@,
    {
        if let Err(e) = self.ensure_usable() {
            return Err(e);
        }
        self.execute_portal_inner(portal, max_rows)
    }

    /// An Execute that may also go on with the open scope.
    pub fn execute_portal_inner(&mut self, portal: &str, max_rows: u32) -> (r: Result<
        ExecuteExchange,
        Error,
    >)
        ensures
            final(self)@ == (ConnView {
                write_buffer: describe_portal_frame(portal@) + execute_frame(portal@, max_rows)
                    + flush_frame(),
                in_progress: final(self)@.in_progress,
                ..old(self)@
            }),
            old(self)@.ready() ==> (r matches Ok(x) && x.columns() == Seq::<u8>::empty()
                && !x.ending()) && final(self)@.in_progress,
            !old(self)@.ready() ==> outcome(r) == Err::<ExecuteExchange, _>(
                ErrorView::ConnectionBroken,
            ) && final(self)@.in_progress == old(self)@.in_progress,
    {
        let buf = self.write_buffer_mut();
        buf.clear();
        write_describe_portal(buf, portal);
        write_execute(buf, portal, max_rows);
        write_flush(buf);
        proof {
            let d = describe_portal_frame(portal@);
            let x = execute_frame(portal@, max_rows);
            assert(Seq::<u8>::empty() + d + x + flush_frame() =~= d + x + flush_frame());
        }
        match self.begin_exchange() {
            Ok(()) => {
                let column_buffer: Vec<u8> = Vec::new();
                Ok(ExecuteExchange { column_buffer, ending: false })
            },
            Err(e) => Err(e),
        }
    }

    /// Low-level close portal: send Close(Portal) and receive CloseComplete.
    pub fn lowlevel_close_portal(&mut self, portal: &str) -> (r: Result<ReplyExchange, Error>)
        ensures
            old(self)@.usable() ==> (r matches Ok(x) && x.expects() == CLOSE_COMPLETE && x.named()
                == "CloseComplete"@) && final(self)@ == (ConnView {
                write_buffer: close_portal_frame(portal@) + flush_frame(),
                in_progress: true,
                ..old(self)@
            }),
            !old(self)@.usable() ==> outcome(r) == Err::<ReplyExchange, _>(
                ErrorView::ConnectionBroken,
            ) && final(self)@ == old(self)@,
    {
        if let Err(e) = self.ensure_usable() {
            return Err(e);
        }
        self.close_portal_inner(portal)
    }

    /// A Close on a connection that is ready.
    pub fn close_portal_inner(&mut self, portal: &str) -> (r: Result<ReplyExchange, Error>)
        ensures
            final(self)@ == (ConnView {
                write_buffer: close_portal_frame(portal@) + flush_frame(),
                in_progress: final(self)@.in_progress,
                ..old(self)@
            }),
            old(self)@.ready() ==> (r matches Ok(x) && x.expects() == CLOSE_COMPLETE && x.named()
                == "CloseComplete"@) && final(self)@.in_progress,
            !old(self)@.ready() ==> outcome(r) == Err::<ReplyExchange, _>(
                ErrorView::ConnectionBroken,
            ) && final(self)@.in_progress == old(self)@.in_progress,
    {
        let buf = self.write_buffer_mut();
        buf.clear();
        write_close_portal(buf, portal);
        write_flush(buf);
        proof {
            let c = close_portal_frame(portal@);
            assert(Seq::<u8>::empty() + c + flush_frame() =~= c + flush_frame());
        }
        match self.begin_exchange() {
            Ok(()) => Ok(ReplyExchange { kind: CLOSE_COMPLETE, name: "CloseComplete" }),
            Err(e) => Err(e),
        }
    }
}

/// An exchange is over at its expected last message only: a Sync at a ReadyForQuery, a Bind or a
/// Close at its confirmation, and the execution of a portal that has more rows at PortalSuspended.
/// No message clears a permanent failure or ends the scope of the exchange.
pub proof fn exchange_ends_at_its_last_message<H>(
    v: ConnView<H>,
    m: Message,
    kind: u8,
    name: Seq<char>,
    columns: Seq<u8>,
)
    requires
        v.in_progress,
    ensures
        !v.after_sync(m).in_progress <==> m.type_byte == READY_FOR_QUERY && ready_of(
            m.payload@,
        ) is Ok,
        !v.after_reply(m, kind, name).in_progress <==> m.type_byte == kind && !asynchronous(kind)
            && m.payload@.len() == 0,
        !v.after_fetch(m, columns).in_progress <==> m.type_byte == PORTAL_SUSPENDED
            && m.payload@.len() == 0,
        v.broken ==> v.after_sync(m).broken && v.after_reply(m, kind, name).broken
            && v.after_fetch(m, columns).broken,
        v.after_sync(m).scope_pending == v.scope_pending,
        v.after_reply(m, kind, name).scope_pending == v.scope_pending,
        v.after_fetch(m, columns).scope_pending == v.scope_pending,
{
}

/// A notification, a notice or a parameter change that comes while a handler is set is handed to
/// the handler, in every exchange, and changes nothing but the message that was read last. One that
/// cannot be decoded, and any of them where no handler is set, is read over.
pub proof fn handler_hears_every_message<H>(
    v: ConnView<H>,
    m: Message,
    pending: Option<ErrorView>,
    kind: u8,
    name: Seq<char>,
    columns: Seq<u8>,
)
    requires
        asynchronous(m.type_byte),
    ensures
        ({
            let demand = match async_of(m.type_byte, m.payload@) {
                Some(a) if v.handler is Some => DemandView::NotifyRead(a),
                _ => DemandView::Read,
            };
            &&& v.sync_progress(m, pending) == ProgressView::<()>::Io(demand)
            &&& v.reply_progress(m, kind, name) == ProgressView::<()>::Io(demand)
            &&& v.fetch_progress(m, columns) == match demand {
                DemandView::NotifyRead(a) => FetchView::Notify(a),
                _ => FetchView::Read,
            }
        }),
        v.after_sync(m) == v.with_message(m),
        v.after_reply(m, kind, name) == v.with_message(m),
        v.after_fetch(m, columns) == v.with_message(m),
{
}

/// An outcome that breaks the connection leaves it unusable, in every exchange. What a Sync keeps
/// for its end never does.
pub proof fn breaking_outcome_blocks_use<H>(
    v: ConnView<H>,
    m: Message,
    pending: Option<ErrorView>,
    kind: u8,
    name: Seq<char>,
    columns: Seq<u8>,
)
    requires
        v.in_progress,
        pending matches Some(e) ==> !e.breaks(),
    ensures
        v.sync_progress(m, pending).breaks() ==> !v.after_sync(m).usable(),
        sync_turn(m) matches SyncTurn::Remember(e) ==> !e.breaks(),
        v.reply_progress(m, kind, name).breaks() ==> !v.after_reply(m, kind, name).usable(),
        v.fetch_progress(m, columns) matches FetchView::Done(Err(e)) ==> !v.after_fetch(
            m,
            columns,
        ).usable(),
{
}

} // verus!
