//! Pipelines: executions are queued without waiting, and their results are claimed in order.

pub mod claims;
pub mod laws;
pub mod model;

use std::collections::VecDeque;

use vstd::prelude::*;
use vstd::string::*;

use crate::conn::exchange::report;
use crate::conn::{Conn, ConnView};
use crate::error::{outcome, Error, ErrorView};
use crate::params::{copy_bytes, ToParams};
use crate::pipeline::model::{
    begins_with_sync, ends_in_sync, from_first_sync, out_of_order, unexpected, without_first,
    Columns, Expectation, NextView, PhaseView, PipelineView, Purpose,
};
use crate::protocol::backend::{
    is_async_type, parse_columns, parse_complete, parse_empty, parse_error, parse_ready, parse_row,
    CommandComplete, DataRow, Message, RowDescription, BIND_COMPLETE, COMMAND_COMPLETE, DATA_ROW,
    EMPTY_QUERY_RESPONSE, ERROR_RESPONSE, NO_DATA, PARSE_COMPLETE, READY_FOR_QUERY,
    ROW_DESCRIPTION,
};
use crate::protocol::frontend::{
    bind_frame, describe_portal_frame, execute_frame, parse_frame, write_bind,
    write_describe_portal, write_execute, write_flush, write_parse, write_sync,
};
use crate::statement::{statement_name, IntoStatement, PreparedStatement, StatementRef};
use crate::text::{push_decimal, quote};
use crate::types::AsyncMessage;

verus! {

/// Stands for a queued execution until its result is claimed.
#[derive(Debug)]
pub struct Ticket<'s> {
    seq: usize,
    stmt: Option<&'s PreparedStatement>,
}

impl<'s> Ticket<'s> {
    /// The number of the execution.
    pub closed spec fn seq(&self) -> nat {
        self.seq as nat
    }

    /// The prepared statement that was executed.
    pub closed spec fn statement(&self) -> Option<&'s PreparedStatement> {
        self.stmt
    }

    /// The columns that the prepared statement knows.
    pub open spec fn cached(&self) -> Option<Seq<u8>> {
        match self.statement() {
            Some(stmt) => match stmt.row_desc_payload {
                Some(payload) => Some(payload@),
                None => None,
            },
            None => None,
        }
    }
}

#[derive(Clone, Copy, Debug)]
enum Phase {
    Idle,
    Sending(Purpose),
    CatchUp(Columns),
    AwaitParse,
    AwaitBind(Columns),
    AwaitColumns,
    Rows(Columns),
    InRow(Columns),
    InEnd,
    Settle,
    DrainExec,
    DrainSync,
}

/// What has to be done next for a pipeline.
#[derive(Debug)]
pub enum Next {
    /// Write the write buffer and flush, and report with [`Pipeline::sent`].
    Write,
    /// Read a message, and report with [`Pipeline::received`].
    Read,
    /// Hand the message to the handler of asynchronous messages, read a message, and report with
    /// [`Pipeline::received`].
    Notify(AsyncMessage),
    /// Hand the row to the handler, and report with [`Pipeline::called_back`].
    Row(RowDescription, DataRow),
    /// Tell the handler that the command has completed, and report with
    /// [`Pipeline::called_back`].
    End(CommandComplete),
    /// Nothing; the operation is over.
    Done(Result<(), Error>),
}

impl View for Next {
    type V = NextView;

    open spec fn view(&self) -> NextView {
        match self {
            Next::Write => NextView::Write,
            Next::Read => NextView::Read,
            Next::Notify(m) => NextView::Notify(m@),
            Next::Row(columns, row) => NextView::Row(columns@, row@),
            Next::End(complete) => NextView::End(complete.tag@),
            Next::Done(r) => NextView::Done(outcome(*r)),
        }
    }
}

/// The messages that execute SQL text: Parse, Bind, Describe and Execute.
pub open spec fn sql_messages(sql: Seq<char>, oids: Seq<u32>, values: Seq<Option<Seq<u8>>>) -> Seq<
    u8,
> {
    parse_frame(Seq::empty(), sql, oids) + bind_frame(Seq::empty(), Seq::empty(), values)
        + describe_portal_frame(Seq::empty()) + execute_frame(Seq::empty(), 0)
}

/// The messages that execute a prepared statement: Bind and Execute.
pub open spec fn prepared_messages(name: Seq<char>, values: Seq<Option<Seq<u8>>>) -> Seq<u8> {
    bind_frame(Seq::empty(), name, values) + execute_frame(Seq::empty(), 0)
}

/// What a pipeline knows of its queued executions.
struct Queue {
    queue_seq: usize,
    claim_seq: usize,
    aborted: bool,
    column_buffer: Vec<u8>,
    expectations: VecDeque<Expectation>,
    phase: Phase,
    /// The error that a claim ends with once it has settled.
    failure: Option<Error>,
}

/// Pipeline mode for batching multiple queries.
///
/// Abandoning it with protocol completion still pending makes the connection unusable.
pub struct Pipeline<'a, H> {
    conn: &'a mut Conn<H>,
    queue: Queue,
}

impl<'a, H> View for Pipeline<'a, H> {
    type V = PipelineView<H>;

    open spec fn view(&self) -> PipelineView<H> {
        PipelineView { conn: self.lent()@, ..self.queued_over(self.lent()@) }
    }
}

impl<'a, H> Pipeline<'a, H> {
    /// The connection that was lent to the pipeline.
    pub closed spec fn lent(&self) -> &'a mut Conn<H> {
        self.conn
    }

    /// The pipeline with its queue over a connection.
    pub closed spec fn queued_over(&self, conn: ConnView<H>) -> PipelineView<H> {
        PipelineView {
            conn,
            queue_seq: self.queue.queue_seq as nat,
            claim_seq: self.queue.claim_seq as nat,
            aborted: self.queue.aborted,
            columns: self.queue.column_buffer@,
            expectations: self.queue.expectations@,
            phase: match self.queue.phase {
                Phase::Idle => PhaseView::Idle,
                Phase::Sending(purpose) => PhaseView::Sending(purpose),
                Phase::CatchUp(source) => PhaseView::CatchUp(source),
                Phase::AwaitParse => PhaseView::AwaitParse,
                Phase::AwaitBind(source) => PhaseView::AwaitBind(source),
                Phase::AwaitColumns => PhaseView::AwaitColumns,
                Phase::Rows(source) => PhaseView::Rows(source),
                Phase::InRow(source) => PhaseView::InRow(source),
                Phase::InEnd => PhaseView::InEnd,
                Phase::Settle => PhaseView::Settle(
                    match self.queue.failure {
                        Some(e) => Err(e@),
                        None => Ok(()),
                    },
                ),
                Phase::DrainExec => PhaseView::DrainExec,
                Phase::DrainSync => PhaseView::DrainSync,
            },
        }
    }

    /// A pipeline that is no longer used has given its connection back as it is.
    pub proof fn given_back(self)
        requires
            has_resolved(self),
        ensures
            *final(self.lent()) == *self.lent(),
    {
        assert(has_resolved(self.conn));
    }

    /// The connection that was lent to the pipeline.
    pub fn conn(&self) -> (r: &Conn<H>)
        ensures
            *r == *self.lent(),
    {
        &*self.conn
    }

    /// The handler of asynchronous messages, to be called.
    pub fn async_message_handler(&mut self) -> (r: Option<&mut H>)
        ensures
            *final(final(self).lent()) == *final(old(self).lent()),
            match r {
                Some(h) => old(self)@.conn.handler == Some(*h) && final(self)@ == (PipelineView {
                    conn: ConnView { handler: Some(*final(h)), ..old(self)@.conn },
                    ..old(self)@
                }),
                None => old(self)@.conn.handler is None && final(self)@ == old(self)@,
            },
    {
        self.conn.async_message_handler()
    }
}

impl<'a, H> Pipeline<'a, H> {
    /// Create a new pipeline.
    ///
    /// Operations reject a connection left unusable by a previous exchange or abandoned scope.
    pub fn new(conn: &'a mut Conn<H>) -> (r: Self)
        ensures
            r@ == PipelineView::fresh(
                if old(conn)@.usable() {
                    ConnView { write_buffer: Seq::empty(), ..old(conn)@ }
                } else {
                    ConnView { broken: true, ..old(conn)@ }
                },
            ),
            *final(r.lent()) == *final(conn),
    {
        Self::new_inner(conn)
    }

    /// A new pipeline. It cannot recover what an abandoned pipeline or portal was owed, so an
    /// unusable connection fails for good.
    pub fn new_inner(conn: &'a mut Conn<H>) -> (r: Self)
        ensures
            r@ == PipelineView::fresh(
                if old(conn)@.usable() {
                    ConnView { write_buffer: Seq::empty(), ..old(conn)@ }
                } else {
                    ConnView { broken: true, ..old(conn)@ }
                },
            ),
            *final(r.lent()) == *final(conn),
    {
        if conn.ensure_usable().is_err() {
            conn.mark_broken();
        } else {
            conn.write_buffer_mut().clear();
        }
        let queue = Queue {
            queue_seq: 0,
            claim_seq: 0,
            aborted: false,
            column_buffer: Vec::new(),
            expectations: VecDeque::new(),
            phase: Phase::Idle,
            failure: None,
        };
        Pipeline { conn, queue }
    }

    /// Queue a statement execution.
    ///
    /// Only buffers the command; nothing is sent until a sync, a flush or a claim. An execution
    /// whose parameters cannot be encoded is not queued.
    pub fn exec<'s, S: IntoStatement + ?Sized, P: ToParams>(
        &mut self,
        statement: &'s S,
        params: P,
    ) -> (r: Result<Ticket<'s>, Error>)
        requires
            old(self)@.queue_seq < usize::MAX,
        ensures
            *final(final(self).lent()) == *final(old(self).lent()),
            !old(self)@.conn.ready() ==> final(self)@ == old(self)@ && outcome(r) == Err::<
                Ticket<'s>,
                _,
            >(ErrorView::ConnectionBroken),
            old(self)@.conn.ready() ==> match statement.statement() {
                StatementRef::Sql(sql) => match params.encoded(params.natural()) {
                    Ok(values) => final(self)@ == old(self)@.queued(
                        sql_messages(sql@, params.natural(), values),
                        Expectation::ParseBindExecute,
                    ) && (r matches Ok(t) && t.seq() == old(self)@.queue_seq && t.statement()
                        is None),
                    Err(e) => final(self)@ == old(self)@ && outcome(r) == Err::<Ticket<'s>, _>(e),
                },
                StatementRef::Prepared(stmt) => match params.encoded(stmt.param_oids@) {
                    Ok(values) => final(self)@ == old(self)@.queued(
                        prepared_messages(statement_name(stmt.idx as nat), values),
                        Expectation::BindExecute,
                    ) && (r matches Ok(t) && t.seq() == old(self)@.queue_seq && t.statement()
                        == Some(stmt)),
                    Err(e) => final(self)@ == old(self)@ && outcome(r) == Err::<Ticket<'s>, _>(e),
                },
            },
    {
        if let Err(e) = self.conn.ensure_exchange_ready() {
            return Err(e);
        }
        let seq: usize = self.queue.queue_seq;
        match statement.statement_ref() {
            StatementRef::Sql(sql) => match self.exec_sql_inner(sql, &params) {
                Ok(()) => Ok(Ticket { seq, stmt: None }),
                Err(e) => Err(e),
            },
            StatementRef::Prepared(stmt) => {
                let name = stmt.wire_name();
                match self.exec_prepared_inner(name.as_str(), stmt.param_oids.as_slice(), &params) {
                    Ok(()) => Ok(Ticket { seq, stmt: Some(stmt) }),
                    Err(e) => Err(e),
                }
            },
        }
    }

    fn queued(&mut self, expectation: Expectation)
        requires
            old(self)@.queue_seq < usize::MAX,
        ensures
            *final(final(self).lent()) == *final(old(self).lent()),
            final(self)@ == old(self)@.queued(Seq::empty(), expectation),
    {
        self.queue.queue_seq = self.queue.queue_seq + 1;
        self.queue.expectations.push_back(expectation);
        assert(self@.conn.write_buffer + Seq::<u8>::empty() =~= self@.conn.write_buffer);
    }

    fn exec_sql_inner<P: ToParams>(&mut self, sql: &str, params: &P) -> (r: Result<(), Error>)
        requires
            old(self)@.queue_seq < usize::MAX,
        ensures
            *final(final(self).lent()) == *final(old(self).lent()),
            match params.encoded(params.natural()) {
                Ok(values) => r is Ok && final(self)@ == old(self)@.queued(
                    sql_messages(sql@, params.natural(), values),
                    Expectation::ParseBindExecute,
                ),
                Err(e) => outcome(r) == Err::<(), _>(e) && final(self)@ == old(self)@,
            },
    {
        proof {
            reveal_strlit("");
            assert(""@ =~= Seq::<char>::empty());
        }
        let oids = params.natural_oids();
        let length: usize = self.conn.write_buffer().len();
        let buf = self.conn.write_buffer_mut();
        let ghost before = buf@;
        write_parse(buf, "", sql, oids.as_slice());
        if let Err(e) = write_bind(buf, "", "", params, oids.as_slice()) {
            // The Parse of an execution that is not queued must not be sent.
            buf.truncate(length);
            assert(buf@ =~= before);
            return Err(e);
        }
        write_describe_portal(buf, "");
        write_execute(buf, "", 0);
        proof {
            let values = params.encoded(params.natural())->Ok_0;
            assert(buf@ =~= before + sql_messages(sql@, params.natural(), values));
        }
        self.queued(Expectation::ParseBindExecute);
        Ok(())
    }

    fn exec_prepared_inner<P: ToParams>(
        &mut self,
        stmt_name: &str,
        param_oids: &[u32],
        params: &P,
    ) -> (r: Result<(), Error>)
        requires
            old(self)@.queue_seq < usize::MAX,
        ensures
            *final(final(self).lent()) == *final(old(self).lent()),
            match params.encoded(param_oids@) {
                Ok(values) => r is Ok && final(self)@ == old(self)@.queued(
                    prepared_messages(stmt_name@, values),
                    Expectation::BindExecute,
                ),
                Err(e) => outcome(r) == Err::<(), _>(e) && final(self)@ == old(self)@,
            },
    {
        proof {
            reveal_strlit("");
            assert(""@ =~= Seq::<char>::empty());
        }
        let buf = self.conn.write_buffer_mut();
        let ghost before = buf@;
        if let Err(e) = write_bind(buf, "", stmt_name, params, param_oids) {
            return Err(e);
        }
        write_execute(buf, "", 0);
        proof {
            let values = params.encoded(param_oids@)->Ok_0;
            assert(buf@ =~= before + prepared_messages(stmt_name@, values));
        }
        self.queued(Expectation::BindExecute);
        Ok(())
    }

    fn over(&mut self, result: Result<(), Error>) -> (n: Next)
        ensures
            *final(final(self).lent()) == *final(old(self).lent()),
            (final(self)@, n@) == old(self)@.over(outcome(result)),
    {
        self.queue.phase = Phase::Idle;
        Next::Done(result)
    }

    fn reads(&mut self, phase: Phase) -> (n: Next)
        requires
            !(phase is Settle),
        ensures
            *final(final(self).lent()) == *final(old(self).lent()),
            final(self)@ == (PipelineView { phase: final(self)@.phase, ..old(self)@ }),
            n@ == NextView::Read,
            final(self).queue.phase == phase,
    {
        self.queue.phase = phase;
        Next::Read
    }

    /// Appends a Sync to the write buffer and begins to send it.
    fn syncs(&mut self, purpose: Purpose) -> (n: Next)
        requires
            old(self)@.conn.ready(),
        ensures
            *final(final(self).lent()) == *final(old(self).lent()),
            (final(self)@, n@) == old(self)@.syncs(purpose),
    {
        let _ = self.conn.begin_exchange();
        self.conn.set_scope_pending(true);
        write_sync(self.conn.write_buffer_mut());
        self.queue.expectations.push_back(Expectation::Sync);
        self.queue.phase = Phase::Sending(purpose);
        Next::Write
    }

    /// Send a SYNC message to establish a transaction boundary.
    ///
    /// ReadyForQuery messages that follow a claimed execution are consumed with it; remaining
    /// responses are drained by the cleanup.
    pub fn sync(&mut self) -> (n: Next)
        ensures
            *final(final(self).lent()) == *final(old(self).lent()),
            (final(self)@, n@) == old(self)@.sync(),
    {
        match self.conn.ensure_exchange_ready() {
            Err(e) => Next::Done(Err(e)),
            Ok(()) => self.syncs(Purpose::Sync),
        }
    }

    /// Send a FLUSH message to trigger server response.
    ///
    /// The server sends all pending responses without a transaction boundary.
    pub fn flush(&mut self) -> (n: Next)
        ensures
            *final(final(self).lent()) == *final(old(self).lent()),
            (final(self)@, n@) == old(self)@.flush(),
    {
        if let Err(e) = self.conn.begin_exchange() {
            return Next::Done(Err(e));
        }
        if self.conn.write_buffer().len() == 0 {
            self.conn.finish_exchange();
            return Next::Done(Ok(()));
        }
        self.conn.set_scope_pending(true);
        write_flush(self.conn.write_buffer_mut());
        self.queue.phase = Phase::Sending(Purpose::Flush);
        Next::Write
    }

    fn sync_is_first(&self) -> (r: bool)
        ensures
            r == begins_with_sync(self@.expectations),
    {
        self.queue.expectations.len() > 0 && self.queue.expectations[0] == Expectation::Sync
    }

    fn sync_is_last(&self) -> (r: bool)
        ensures
            r == ends_in_sync(self@.expectations),
    {
        let length: usize = self.queue.expectations.len();
        length > 0 && self.queue.expectations[length - 1] == Expectation::Sync
    }

    /// Ends a claim, after the ReadyForQuery that come next, if any are owed.
    fn settle(&mut self, result: Result<(), Error>) -> (n: Next)
        ensures
            *final(final(self).lent()) == *final(old(self).lent()),
            (final(self)@, n@) == old(self)@.settle(outcome(result)),
    {
        if self.sync_is_first() {
            let _ = self.queue.expectations.pop_front();
            self.queue.failure = match result {
                Ok(()) => None,
                Err(e) => Some(e),
            };
            self.queue.phase = Phase::Settle;
            assert(self@.expectations =~= old(self)@.expectations.drop_first());
            Next::Read
        } else {
            self.conn.finish_exchange();
            self.over(result)
        }
    }

    fn claimed(&mut self, result: Result<(), Error>) -> (n: Next)
        requires
            old(self)@.claim_seq < usize::MAX,
        ensures
            *final(final(self).lent()) == *final(old(self).lent()),
            (final(self)@, n@) == old(self)@.claimed(outcome(result)),
    {
        self.queue.claim_seq = self.queue.claim_seq + 1;
        self.settle(result)
    }

    /// Check that the ticket sequence matches the expected claim sequence.
    fn check_sequence(&self, seq: usize) -> (r: Result<(), Error>)
        ensures
            outcome(r) == (if seq == self@.claim_seq {
                Ok(())
            } else {
                Err(out_of_order(self@.claim_seq, seq as nat))
            }),
    {
        if seq != self.queue.claim_seq {
            let mut text = String::from_str("claim out of order: expected seq ");
            push_decimal(&mut text, self.queue.claim_seq as u64);
            text.append(", got ");
            push_decimal(&mut text, seq as u64);
            return Err(Error::InvalidUsage(text));
        }
        Ok(())
    }

    /// Claim the result of an execution.
    ///
    /// Results must be claimed in the same order they were queued.
    pub fn claim(&mut self, ticket: Ticket<'_>) -> (n: Next)
        requires
            old(self)@.claim_seq < usize::MAX,
        ensures
            *final(final(self).lent()) == *final(old(self).lent()),
            (final(self)@, n@) == old(self)@.claim(ticket.seq(), ticket.cached()),
    {
        if let Err(e) = self.conn.ensure_exchange_ready() {
            return Next::Done(Err(e));
        }
        if let Err(e) = self.check_sequence(ticket.seq) {
            return Next::Done(Err(e));
        }
        let cached = match ticket.stmt {
            Some(stmt) => stmt.row_desc_payload(),
            None => None,
        };
        let source = match cached {
            Some(payload) => {
                self.queue.column_buffer = copy_bytes(payload.as_slice());
                Columns::Cached
            },
            None => Columns::Uncached,
        };
        // What is buffered goes out with a Sync first.
        if self.conn.write_buffer().len() > 0 {
            self.syncs(Purpose::Claim(source))
        } else {
            self.claim_begin(source)
        }
    }

    fn claim_begin(&mut self, source: Columns) -> (n: Next)
        requires
            old(self)@.claim_seq < usize::MAX,
        ensures
            *final(final(self).lent()) == *final(old(self).lent()),
            (final(self)@, n@) == old(self)@.claim_begin(source),
    {
        if let Err(e) = self.conn.begin_exchange() {
            return self.over(Err(e));
        }
        self.claim_next(source)
    }

    fn claim_next(&mut self, source: Columns) -> (n: Next)
        requires
            old(self)@.claim_seq < usize::MAX,
        ensures
            *final(final(self).lent()) == *final(old(self).lent()),
            (final(self)@, n@) == old(self)@.claim_next(source),
    {
        let expectation = self.queue.expectations.pop_front();
        assert(self@.expectations =~= without_first(old(self)@.expectations));
        if let Some(Expectation::Sync) = expectation {
            return self.reads(Phase::CatchUp(source));
        }
        if self.queue.aborted {
            // The server has skipped the execution.
            return self.claimed(
                Err(Error::LibraryBug(String::from_str("pipeline aborted due to earlier error"))),
            );
        }
        match expectation {
            Some(Expectation::ParseBindExecute) => self.reads(Phase::AwaitParse),
            Some(_) => self.reads(Phase::AwaitBind(source)),
            None => self.over(
                Err(Error::LibraryBug(String::from_str("no expectation in queue"))),
            ),
        }
    }

    /// Cleanup the pipeline, draining any unclaimed tickets.
    ///
    /// An interrupted or fatally failed exchange cannot be drained; the connection remains
    /// unusable in that case.
    pub fn cleanup(&mut self) -> (n: Next)
        ensures
            *final(final(self).lent()) == *final(old(self).lent()),
            (final(self)@, n@) == old(self)@.cleanup(),
    {
        if self.conn.ensure_exchange_ready().is_err() {
            return Next::Done(Ok(()));
        }
        if self.queue.expectations.len() == 0 && !self.conn.is_scope_pending() {
            self.conn.write_buffer_mut().clear();
            return Next::Done(Ok(()));
        }
        if self.conn.write_buffer().len() > 0 || !self.sync_is_last() {
            self.syncs(Purpose::Cleanup)
        } else {
            self.drain_begin()
        }
    }

    fn drain_begin(&mut self) -> (n: Next)
        ensures
            *final(final(self).lent()) == *final(old(self).lent()),
            (final(self)@, n@) == old(self)@.drain_begin(),
    {
        if self.conn.begin_exchange().is_err() {
            return self.over(Ok(()));
        }
        self.drain()
    }

    fn drain(&mut self) -> (n: Next)
        ensures
            *final(final(self).lent()) == *final(old(self).lent()),
            (final(self)@, n@) == old(self)@.drain(),
    {
        let ghost v = self@;
        let ghost owed = if v.aborted {
            from_first_sync(v.expectations)
        } else {
            v.expectations
        };
        while self.queue.expectations.len() > 0
            invariant
                self@ == (PipelineView { expectations: self@.expectations, ..v }),
                *final(self.conn) == *final(old(self).conn),
                v == old(self)@,
                owed == (if v.aborted {
                    from_first_sync(v.expectations)
                } else {
                    v.expectations
                }),
                owed == (if v.aborted {
                    from_first_sync(self@.expectations)
                } else {
                    self@.expectations
                }),
            decreases self@.expectations.len(),
        {
            let ghost before = self@.expectations;
            let expectation = self.queue.expectations.pop_front();
            assert(self@.expectations =~= before.drop_first());
            match expectation {
                Some(Expectation::Sync) => {
                    return self.reads(Phase::DrainSync);
                },
                _ => {
                    if !self.queue.aborted {
                        return self.reads(Phase::DrainExec);
                    }
                },
            }
        }
        self.queue.queue_seq = 0;
        self.queue.claim_seq = 0;
        self.queue.aborted = false;
        self.conn.finish_exchange();
        self.over(Ok(()))
    }

    /// Takes whether the write buffer was written.
    pub fn sent(&mut self, written: Result<(), Error>) -> (n: Next)
        requires
            old(self)@.phase is Sending,
            old(self)@.claiming() ==> old(self)@.claim_seq < usize::MAX,
        ensures
            *final(final(self).lent()) == *final(old(self).lent()),
            (final(self)@, n@) == old(self)@.sent(written),
    {
        let purpose = match self.queue.phase {
            Phase::Sending(purpose) => purpose,
            _ => Purpose::Sync,
        };
        if let Err(e) = written {
            return match purpose {
                Purpose::Flush => self.over(Err(e)),
                Purpose::Cleanup => {
                    let _ = self.conn.conclude::<()>(Err(e));
                    self.over(Ok(()))
                },
                _ => {
                    let result = self.conn.conclude(Err(e));
                    self.over(result)
                },
            };
        }
        self.conn.write_buffer_mut().clear();
        self.conn.finish_exchange();
        self.queue.phase = Phase::Idle;
        match purpose {
            Purpose::Flush => self.over(Ok(())),
            Purpose::Sync => self.over(Ok(())),
            Purpose::Claim(source) => self.claim_begin(source),
            Purpose::Cleanup => self.drain_begin(),
        }
    }

    /// Takes a message, or the failure to read one.
    pub fn received(&mut self, message: Result<Message, Error>) -> (n: Next)
        requires
            old(self)@.reading(),
            old(self)@.claiming() ==> old(self)@.claim_seq < usize::MAX,
        ensures
            *final(final(self).lent()) == *final(old(self).lent()),
            (final(self)@, n@) == old(self)@.received(message),
    {
        let message = match message {
            Ok(m) => m,
            Err(e) => {
                return match self.queue.phase {
                    Phase::DrainExec => self.over(Ok(())),
                    Phase::DrainSync => self.over(Ok(())),
                    _ => self.over(Err(e)),
                };
            },
        };
        self.conn.receive(message);
        let type_byte: u8 = self.conn.type_byte();
        if is_async_type(type_byte) {
            return match self.conn.heard() {
                Some(m) => Next::Notify(m),
                None => Next::Read,
            };
        }
        match self.queue.phase {
            Phase::CatchUp(_) => self.consume_ready_for_query(),
            Phase::Settle => self.consume_ready_for_query(),
            Phase::DrainSync => self.consume_ready_for_query(),
            Phase::DrainExec => self.drain_expectation(),
            _ => if type_byte == ERROR_RESPONSE {
                self.refused()
            } else {
                self.answered()
            },
        }
    }

    /// Takes a message while waiting for ReadyForQuery.
    fn consume_ready_for_query(&mut self) -> (n: Next)
        requires
            old(self)@.phase is CatchUp || old(self)@.phase is Settle || old(self)@.phase
                is DrainSync,
            old(self)@.claiming() ==> old(self)@.claim_seq < usize::MAX,
        ensures
            *final(final(self).lent()) == *final(old(self).lent()),
            (final(self)@, n@) == old(self)@.confirmed(),
    {
        let type_byte: u8 = self.conn.type_byte();
        if type_byte == ERROR_RESPONSE {
            let error = report(self.conn.read_buffer());
            let result = self.conn.conclude(Err(error));
            self.unconfirmed(result)
        } else if type_byte == READY_FOR_QUERY {
            match parse_ready(self.conn.read_buffer()) {
                Err(e) => self.unconfirmed(Err(e)),
                Ok(status) => {
                    self.conn.set_transaction_status(status);
                    self.conn.set_scope_pending(self.queue.expectations.len() > 0);
                    self.queue.aborted = false;
                    match self.queue.phase {
                        Phase::CatchUp(source) => self.claim_next(source),
                        Phase::Settle => {
                            let result = match self.queue.failure.take() {
                                Some(e) => Err(e),
                                None => Ok(()),
                            };
                            self.settle(result)
                        },
                        _ => self.drain(),
                    }
                },
            }
        } else {
            Next::Read
        }
    }

    fn unconfirmed(&mut self, error: Result<(), Error>) -> (n: Next)
        requires
            error is Err,
        ensures
            *final(final(self).lent()) == *final(old(self).lent()),
            (final(self)@, n@) == old(self)@.unconfirmed(outcome(error)->Err_0),
    {
        match self.queue.phase {
            Phase::DrainSync => self.over(Ok(())),
            _ => self.over(error),
        }
    }

    /// Takes a message of an execution whose answers are discarded.
    ///
    /// Rows are not decoded: prepared executions need not send a RowDescription, and the cached
    /// columns of an unclaimed ticket are gone.
    fn drain_expectation(&mut self) -> (n: Next)
        requires
            old(self)@.phase is DrainExec,
        ensures
            *final(final(self).lent()) == *final(old(self).lent()),
            (final(self)@, n@) == old(self)@.discarded(),
    {
        let type_byte: u8 = self.conn.type_byte();
        if type_byte == ERROR_RESPONSE {
            match parse_error(self.conn.read_buffer()) {
                Err(_) => self.over(Ok(())),
                Ok(error) => if error.is_fatal() {
                    self.conn.mark_broken();
                    self.over(Ok(()))
                } else {
                    self.queue.aborted = true;
                    self.drain()
                },
            }
        } else if type_byte == COMMAND_COMPLETE {
            match parse_complete(self.conn.read_buffer()) {
                Ok(_) => self.drain(),
                Err(_) => self.over(Ok(())),
            }
        } else if type_byte == EMPTY_QUERY_RESPONSE {
            match parse_empty(self.conn.read_buffer(), "EmptyQueryResponse") {
                Ok(_) => self.drain(),
                Err(_) => self.over(Ok(())),
            }
        } else if type_byte == PARSE_COMPLETE || type_byte == BIND_COMPLETE || type_byte
            == ROW_DESCRIPTION || type_byte == NO_DATA || type_byte == DATA_ROW {
            Next::Read
        } else {
            self.over(Ok(()))
        }
    }

    /// Takes a server error in place of an answer to a claim.
    fn refused(&mut self) -> (n: Next)
        requires
            old(self)@.claim_seq < usize::MAX,
        ensures
            *final(final(self).lent()) == *final(old(self).lent()),
            (final(self)@, n@) == old(self)@.refused(),
    {
        match parse_error(self.conn.read_buffer()) {
            Err(e) => self.over(Err(e)),
            Ok(error) => {
                let error = Error::Server(error);
                if error.is_connection_broken() {
                    self.conn.mark_broken();
                } else {
                    self.queue.aborted = true;
                }
                // A fatal error cannot be recovered by draining what remains.
                if self.conn.has_failed() {
                    self.over(Err(error))
                } else {
                    self.claimed(Err(error))
                }
            },
        }
    }

    /// Create an error for unexpected message type.
    fn unexpected_message<T>(&self, expected: &str) -> (r: Result<T, Error>)
        ensures
            outcome(r) == Err::<T, _>(unexpected(expected@, self@.conn.type_byte)),
    {
        let text = String::from_str("expected ").concat(expected).concat(", got ");
        Err(Error::LibraryBug(quote(text.as_str(), self.conn.type_byte())))
    }

    /// Takes an answer to a claim.
    fn answered(&mut self) -> (n: Next)
        requires
            old(self)@.reading(),
            old(self)@.claiming(),
            old(self)@.claim_seq < usize::MAX,
        ensures
            *final(final(self).lent()) == *final(old(self).lent()),
            (final(self)@, n@) == old(self)@.answered(),
    {
        match self.queue.phase {
            Phase::AwaitParse => self.claim_parse_bind_exec_inner(),
            Phase::AwaitBind(source) => self.claim_bind_exec_inner(source),
            Phase::AwaitColumns => self.claim_columns(),
            Phase::Rows(source) => self.claim_rows_inner(source),
            _ => Next::Read,
        }
    }

    /// Takes what should be ParseComplete.
    fn claim_parse_bind_exec_inner(&mut self) -> (n: Next)
        requires
            old(self)@.phase is AwaitParse,
        ensures
            *final(final(self).lent()) == *final(old(self).lent()),
            (final(self)@, n@) == old(self)@.answered(),
    {
        if self.conn.type_byte() != PARSE_COMPLETE {
            let result = self.unexpected_message("ParseComplete");
            return self.over(result);
        }
        match parse_empty(self.conn.read_buffer(), "ParseComplete") {
            Ok(()) => self.reads(Phase::AwaitBind(Columns::Announced)),
            Err(e) => self.over(Err(e)),
        }
    }

    /// Takes what should be BindComplete.
    fn claim_bind_exec_inner(&mut self, source: Columns) -> (n: Next)
        requires
            old(self)@.phase == PhaseView::AwaitBind(source),
        ensures
            *final(final(self).lent()) == *final(old(self).lent()),
            (final(self)@, n@) == old(self)@.answered(),
    {
        if self.conn.type_byte() != BIND_COMPLETE {
            let result = self.unexpected_message("BindComplete");
            return self.over(result);
        }
        match parse_empty(self.conn.read_buffer(), "BindComplete") {
            Ok(()) => if source == Columns::Announced {
                self.reads(Phase::AwaitColumns)
            } else {
                self.reads(Phase::Rows(source))
            },
            Err(e) => self.over(Err(e)),
        }
    }

    /// Takes what should be RowDescription or NoData.
    fn claim_columns(&mut self) -> (n: Next)
        requires
            old(self)@.phase is AwaitColumns,
        ensures
            *final(final(self).lent()) == *final(old(self).lent()),
            (final(self)@, n@) == old(self)@.answered(),
    {
        let type_byte: u8 = self.conn.type_byte();
        if type_byte == ROW_DESCRIPTION {
            self.queue.column_buffer = copy_bytes(self.conn.read_buffer());
            self.reads(Phase::Rows(Columns::Announced))
        } else if type_byte == NO_DATA {
            match parse_empty(self.conn.read_buffer(), "NoData") {
                Ok(()) => self.reads(Phase::Rows(Columns::Absent)),
                Err(e) => self.over(Err(e)),
            }
        } else {
            let result = self.unexpected_message("RowDescription or NoData");
            self.over(result)
        }
    }

    /// Takes a row, or the message that ends the rows.
    fn claim_rows_inner(&mut self, source: Columns) -> (n: Next)
        requires
            old(self)@.phase == PhaseView::Rows(source),
            old(self)@.claim_seq < usize::MAX,
        ensures
            *final(final(self).lent()) == *final(old(self).lent()),
            (final(self)@, n@) == old(self)@.answered(),
    {
        let type_byte: u8 = self.conn.type_byte();
        if type_byte == DATA_ROW {
            self.claim_row(source)
        } else if type_byte == COMMAND_COMPLETE {
            match parse_complete(self.conn.read_buffer()) {
                Ok(complete) => {
                    self.queue.phase = Phase::InEnd;
                    Next::End(complete)
                },
                Err(e) => self.over(Err(e)),
            }
        } else if type_byte == EMPTY_QUERY_RESPONSE {
            match parse_empty(self.conn.read_buffer(), "EmptyQueryResponse") {
                Ok(()) => self.claimed(Ok(())),
                Err(e) => self.over(Err(e)),
            }
        } else {
            let text = quote("unexpected message type in pipeline claim: ", type_byte);
            self.over(Err(Error::LibraryBug(text)))
        }
    }

    fn claim_row(&mut self, source: Columns) -> (n: Next)
        ensures
            *final(final(self).lent()) == *final(old(self).lent()),
            (final(self)@, n@) == old(self)@.row(old(self)@.conn.read_buffer, source),
    {
        match source {
            Columns::Absent => return self.over(
                Err(Error::LibraryBug(String::from_str("received DataRow but no RowDescription"))),
            ),
            Columns::Uncached => return self.over(
                Err(
                    Error::LibraryBug(
                        String::from_str("received DataRow but no RowDescription cached"),
                    ),
                ),
            ),
            _ => {},
        }
        let columns = match parse_columns(self.queue.column_buffer.as_slice()) {
            Ok(columns) => columns,
            Err(e) => return self.over(Err(e)),
        };
        let row = match parse_row(self.conn.read_buffer()) {
            Ok(row) => row,
            Err(e) => return self.over(Err(e)),
        };
        self.queue.phase = Phase::InRow(source);
        Next::Row(columns, row)
    }

    /// Takes the answer of the handler.
    pub fn called_back(&mut self, answer: Result<(), Error>) -> (n: Next)
        requires
            old(self)@.calling(),
            old(self)@.claim_seq < usize::MAX,
        ensures
            *final(final(self).lent()) == *final(old(self).lent()),
            (final(self)@, n@) == old(self)@.called_back(answer),
    {
        if let Err(e) = answer {
            return self.over(Err(e));
        }
        match self.queue.phase {
            Phase::InRow(source) => self.reads(Phase::Rows(source)),
            _ => self.claimed(Ok(())),
        }
    }

    /// Returns the number of operations that have been queued but not yet claimed.
    pub fn pending_count(&self) -> (r: usize)
        requires
            self@.claim_seq <= self@.queue_seq,
        ensures
            r == self@.queue_seq - self@.claim_seq,
    {
        self.queue.queue_seq - self.queue.claim_seq
    }

    /// Returns true if the pipeline is in aborted state due to an error.
    pub fn is_aborted(&self) -> (r: bool)
        ensures
            r == self@.aborted,
    {
        self.queue.aborted
    }

    /// How many executions were queued since the pipeline was created or cleaned up.
    pub fn queue_seq(&self) -> (r: usize)
        ensures
            r == self@.queue_seq,
    {
        self.queue.queue_seq
    }

    /// The number of the execution that has to be claimed next.
    pub fn claim_seq(&self) -> (r: usize)
        ensures
            r == self@.claim_seq,
    {
        self.queue.claim_seq
    }

    /// Gives the pipeline up. A pending scope that is abandoned is a permanent failure of the
    /// connection, which is given back.
    pub fn abandon(self)
        ensures
            final(self.lent())@ == (ConnView {
                broken: self@.conn.broken || self@.conn.scope_pending,
                ..self@.conn
            }),
    {
        if self.conn.is_scope_pending() {
            self.conn.mark_broken();
        }
    }
}

} // verus!
