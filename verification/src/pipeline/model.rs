//! What a pipeline does, as a function from its state and an event to the state after it.

use vstd::prelude::*;

use crate::conn::ConnView;
use crate::error::{ends_session, Error, ErrorView};
use crate::protocol::backend::{
    asynchronous, columns_of, complete_of, empty_of, error_of, ready_of, row_of, ColumnView,
    Message, BIND_COMPLETE, COMMAND_COMPLETE, DATA_ROW, EMPTY_QUERY_RESPONSE, ERROR_RESPONSE,
    NO_DATA, PARSE_COMPLETE, READY_FOR_QUERY, ROW_DESCRIPTION,
};
use crate::protocol::frontend::{flush_frame, sync_frame};
use crate::text::{decimal, quoted};
use crate::types::AsyncMessageView;

verus! {

/// A response that the server owes.
#[derive(Clone, Copy, Debug, PartialEq, Eq, Structural)]
pub enum Expectation {
    /// The answers to Parse, Bind, Describe and Execute.
    ParseBindExecute,
    /// The answers to Bind and Execute.
    BindExecute,
    /// ReadyForQuery.
    Sync,
}

/// Where the columns of the rows come from.
#[derive(Clone, Copy, Debug, PartialEq, Eq, Structural)]
pub enum Columns {
    /// The server announces them.
    Announced,
    /// The server has announced that there are none.
    Absent,
    /// The prepared statement knows them.
    Cached,
    /// The prepared statement knows of none.
    Uncached,
}

/// Why the write buffer is being written.
#[derive(Clone, Copy, Debug, PartialEq, Eq, Structural)]
pub enum Purpose {
    Flush,
    Sync,
    /// A claim sends what was buffered first.
    Claim(Columns),
    /// A cleanup sends what was buffered first.
    Cleanup,
}

/// Where a pipeline stands.
pub enum PhaseView {
    /// No operation is going on.
    Idle,
    /// The write buffer is being written.
    Sending(Purpose),
    /// A claim waits for a ReadyForQuery that comes before its execution.
    CatchUp(Columns),
    /// A claim waits for ParseComplete.
    AwaitParse,
    /// A claim waits for BindComplete.
    AwaitBind(Columns),
    /// A claim waits for RowDescription or NoData.
    AwaitColumns,
    /// A claim waits for a row or the end of the rows.
    Rows(Columns),
    /// The handler of a claim has got a row.
    InRow(Columns),
    /// The handler of a claim was told the end.
    InEnd,
    /// A claim that has its result waits for ReadyForQuery.
    Settle(Result<(), ErrorView>),
    /// A cleanup discards the answers to an execution.
    DrainExec,
    /// A cleanup waits for ReadyForQuery.
    DrainSync,
}

/// What has to be done next for a pipeline.
pub enum NextView {
    /// Write the write buffer and flush.
    Write,
    /// Read a message.
    Read,
    /// Hand a message to the handler of asynchronous messages, then read a message.
    Notify(AsyncMessageView),
    /// Hand a row to the handler.
    Row(Seq<ColumnView>, Seq<Option<Seq<u8>>>),
    /// Tell the handler that the command has completed.
    End(Seq<u8>),
    /// Nothing; the operation is over.
    Done(Result<(), ErrorView>),
}

/// A pipeline as contracts speak of it.
pub struct PipelineView<H> {
    /// The connection that was lent to the pipeline.
    pub conn: ConnView<H>,
    /// How many executions were queued.
    pub queue_seq: nat,
    /// The execution to claim next.
    pub claim_seq: nat,
    /// The server skips what it gets, up to the next Sync.
    pub aborted: bool,
    /// The RowDescription that the rows go by.
    pub columns: Seq<u8>,
    /// What the server owes, in order.
    pub expectations: Seq<Expectation>,
    pub phase: PhaseView,
}

/// The error of a claim that is not the next one.
pub open spec fn out_of_order(expected: nat, got: nat) -> ErrorView {
    ErrorView::InvalidUsage(
        "claim out of order: expected seq "@ + decimal(expected) + ", got "@ + decimal(got),
    )
}

/// The error for a message of another type than the one expected.
pub open spec fn unexpected(expected: Seq<char>, type_byte: u8) -> ErrorView {
    ErrorView::LibraryBug(quoted("expected "@ + expected + ", got "@, type_byte))
}

/// The rest of the queue from the first Sync on.
pub open spec fn from_first_sync(expectations: Seq<Expectation>) -> Seq<Expectation>
    decreases expectations.len(),
{
    if expectations.len() == 0 || expectations[0] == Expectation::Sync {
        expectations
    } else {
        from_first_sync(expectations.drop_first())
    }
}

/// The queue ends in a Sync: once all of it has come, nothing is owed.
pub open spec fn ends_in_sync(expectations: Seq<Expectation>) -> bool {
    expectations.len() > 0 && expectations.last() == Expectation::Sync
}

/// The next response that is owed is a ReadyForQuery.
pub open spec fn begins_with_sync(expectations: Seq<Expectation>) -> bool {
    expectations.len() > 0 && expectations[0] == Expectation::Sync
}

/// What was queued without its first item.
pub open spec fn without_first(expectations: Seq<Expectation>) -> Seq<Expectation> {
    if expectations.len() == 0 {
        expectations
    } else {
        expectations.drop_first()
    }
}

impl<H> PipelineView<H> {
    /// A pipeline without history over a connection.
    pub open spec fn fresh(conn: ConnView<H>) -> PipelineView<H> {
        PipelineView {
            conn,
            queue_seq: 0,
            claim_seq: 0,
            aborted: false,
            columns: Seq::empty(),
            expectations: Seq::empty(),
            phase: PhaseView::Idle,
        }
    }

    /// The pipeline waits for a message.
    pub open spec fn reading(self) -> bool {
        match self.phase {
            PhaseView::CatchUp(_) => true,
            PhaseView::AwaitParse => true,
            PhaseView::AwaitBind(_) => true,
            PhaseView::AwaitColumns => true,
            PhaseView::Rows(_) => true,
            PhaseView::Settle(_) => true,
            PhaseView::DrainExec => true,
            PhaseView::DrainSync => true,
            _ => false,
        }
    }

    /// The pipeline waits for the handler.
    pub open spec fn calling(self) -> bool {
        self.phase is InRow || self.phase is InEnd
    }

    /// A claim is going on that has no result yet.
    pub open spec fn claiming(self) -> bool {
        match self.phase {
            PhaseView::Sending(Purpose::Claim(_)) => true,
            PhaseView::CatchUp(_) => true,
            PhaseView::AwaitParse => true,
            PhaseView::AwaitBind(_) => true,
            PhaseView::AwaitColumns => true,
            PhaseView::Rows(_) => true,
            PhaseView::InRow(_) => true,
            PhaseView::InEnd => true,
            _ => false,
        }
    }

    /// The operation ends here; the exchange stays as it is.
    pub open spec fn over(self, result: Result<(), ErrorView>) -> (PipelineView<H>, NextView) {
        (PipelineView { phase: PhaseView::Idle, ..self }, NextView::Done(result))
    }

    /// The operation ends here, and its exchange with it.
    pub open spec fn finished(self, result: Result<(), ErrorView>) -> (PipelineView<H>, NextView) {
        PipelineView { conn: ConnView { in_progress: false, ..self.conn }, ..self }.over(result)
    }

    /// The pipeline reads on in another phase.
    pub open spec fn reads(self, phase: PhaseView) -> (PipelineView<H>, NextView) {
        (PipelineView { phase, ..self }, NextView::Read)
    }

    /// An execution was queued.
    pub open spec fn queued(self, messages: Seq<u8>, expectation: Expectation) -> PipelineView<H> {
        PipelineView {
            conn: ConnView { write_buffer: self.conn.write_buffer + messages, ..self.conn },
            queue_seq: self.queue_seq + 1,
            expectations: self.expectations.push(expectation),
            ..self
        }
    }

    /// The write buffer goes out with a Sync at its end.
    pub open spec fn syncs(self, purpose: Purpose) -> (PipelineView<H>, NextView) {
        (
            PipelineView {
                conn: ConnView {
                    in_progress: true,
                    scope_pending: true,
                    write_buffer: self.conn.write_buffer + sync_frame(),
                    ..self.conn
                },
                expectations: self.expectations.push(Expectation::Sync),
                phase: PhaseView::Sending(purpose),
                ..self
            },
            NextView::Write,
        )
    }

    /// Sync.
    pub open spec fn sync(self) -> (PipelineView<H>, NextView) {
        if self.conn.ready() {
            self.syncs(Purpose::Sync)
        } else {
            (self, NextView::Done(Err(ErrorView::ConnectionBroken)))
        }
    }

    /// Flush; nothing happens where nothing is buffered.
    pub open spec fn flush(self) -> (PipelineView<H>, NextView) {
        if !self.conn.ready() {
            (self, NextView::Done(Err(ErrorView::ConnectionBroken)))
        } else if self.conn.write_buffer.len() == 0 {
            (self, NextView::Done(Ok(())))
        } else {
            (
                PipelineView {
                    conn: ConnView {
                        in_progress: true,
                        scope_pending: true,
                        write_buffer: self.conn.write_buffer + flush_frame(),
                        ..self.conn
                    },
                    phase: PhaseView::Sending(Purpose::Flush),
                    ..self
                },
                NextView::Write,
            )
        }
    }

    /// A claim that has its result takes the ReadyForQuery that come next, if any are owed.
    pub open spec fn settle(self, result: Result<(), ErrorView>) -> (PipelineView<H>, NextView) {
        if begins_with_sync(self.expectations) {
            PipelineView { expectations: self.expectations.drop_first(), ..self }.reads(
                PhaseView::Settle(result),
            )
        } else {
            self.finished(result)
        }
    }

    /// The execution that is claimed is done with.
    pub open spec fn claimed(self, result: Result<(), ErrorView>) -> (PipelineView<H>, NextView) {
        PipelineView { claim_seq: self.claim_seq + 1, ..self }.settle(result)
    }

    /// Claim the execution with this number; `cached` are its columns, where they are known.
    pub open spec fn claim(self, seq: nat, cached: Option<Seq<u8>>) -> (PipelineView<H>, NextView) {
        if !self.conn.ready() {
            (self, NextView::Done(Err(ErrorView::ConnectionBroken)))
        } else if seq != self.claim_seq {
            (self, NextView::Done(Err(out_of_order(self.claim_seq, seq))))
        } else {
            let (columns, source) = match cached {
                Some(payload) => (payload, Columns::Cached),
                None => (self.columns, Columns::Uncached),
            };
            let v = PipelineView { columns, ..self };
            if self.conn.write_buffer.len() > 0 {
                v.syncs(Purpose::Claim(source))
            } else {
                v.claim_begin(source)
            }
        }
    }

    /// A claim for which nothing is left to send.
    pub open spec fn claim_begin(self, source: Columns) -> (PipelineView<H>, NextView) {
        if self.conn.ready() {
            PipelineView { conn: ConnView { in_progress: true, ..self.conn }, ..self }.claim_next(
                source,
            )
        } else {
            self.over(Err(ErrorView::ConnectionBroken))
        }
    }

    /// A claim takes the ReadyForQuery that come first, if any are owed, and the answers to its
    /// execution after them. In an aborted pipeline the server has skipped the execution.
    pub open spec fn claim_next(self, source: Columns) -> (PipelineView<H>, NextView) {
        let v = PipelineView { expectations: without_first(self.expectations), ..self };
        if begins_with_sync(self.expectations) {
            v.reads(PhaseView::CatchUp(source))
        } else if self.aborted {
            v.claimed(Err(ErrorView::LibraryBug("pipeline aborted due to earlier error"@)))
        } else if self.expectations.len() == 0 {
            v.over(Err(ErrorView::LibraryBug("no expectation in queue"@)))
        } else if self.expectations[0] == Expectation::ParseBindExecute {
            v.reads(PhaseView::AwaitParse)
        } else {
            v.reads(PhaseView::AwaitBind(source))
        }
    }

    /// Cleanup. A Sync is sent unless everything was sent and the last thing owed is the answer to
    /// a Sync.
    pub open spec fn cleanup(self) -> (PipelineView<H>, NextView) {
        if !self.conn.ready() {
            (self, NextView::Done(Ok(())))
        } else if self.expectations.len() == 0 && !self.conn.scope_pending {
            (
                PipelineView {
                    conn: ConnView { write_buffer: Seq::empty(), ..self.conn },
                    ..self
                },
                NextView::Done(Ok(())),
            )
        } else if self.conn.write_buffer.len() > 0 || !ends_in_sync(self.expectations) {
            self.syncs(Purpose::Cleanup)
        } else {
            self.drain_begin()
        }
    }

    /// A cleanup for which nothing is left to send.
    pub open spec fn drain_begin(self) -> (PipelineView<H>, NextView) {
        if self.conn.ready() {
            PipelineView { conn: ConnView { in_progress: true, ..self.conn }, ..self }.drain()
        } else {
            self.over(Ok(()))
        }
    }

    /// A cleanup takes the next response that the server owes.
    pub open spec fn drain(self) -> (PipelineView<H>, NextView) {
        let owed = if self.aborted {
            from_first_sync(self.expectations)
        } else {
            self.expectations
        };
        if owed.len() == 0 {
            PipelineView {
                expectations: owed,
                queue_seq: 0,
                claim_seq: 0,
                aborted: false,
                ..self
            }.finished(Ok(()))
        } else {
            PipelineView { expectations: owed.drop_first(), ..self }.reads(
                if owed[0] == Expectation::Sync {
                    PhaseView::DrainSync
                } else {
                    PhaseView::DrainExec
                },
            )
        }
    }

    /// The write buffer was written, or not.
    pub open spec fn sent(self, written: Result<(), Error>) -> (PipelineView<H>, NextView) {
        let purpose = self.phase->Sending_0;
        match written {
            Err(e) => PipelineView {
                conn: ConnView {
                    broken: self.conn.broken || (purpose != Purpose::Flush && e@.breaks()),
                    ..self.conn
                },
                ..self
            }.over(
                if purpose == Purpose::Cleanup {
                    Ok(())
                } else {
                    Err(e@)
                },
            ),
            Ok(()) => {
                let v = PipelineView {
                    conn: ConnView {
                        write_buffer: Seq::empty(),
                        in_progress: false,
                        ..self.conn
                    },
                    phase: PhaseView::Idle,
                    ..self
                };
                match purpose {
                    Purpose::Flush => v.over(Ok(())),
                    Purpose::Sync => v.over(Ok(())),
                    Purpose::Claim(source) => v.claim_begin(source),
                    Purpose::Cleanup => v.drain_begin(),
                }
            },
        }
    }

    /// A message was read, or not.
    pub open spec fn received(self, message: Result<Message, Error>) -> (
        PipelineView<H>,
        NextView,
    ) {
        let drains = self.phase is DrainExec || self.phase is DrainSync;
        match message {
            Err(e) => self.over(
                if drains {
                    Ok(())
                } else {
                    Err(e@)
                },
            ),
            Ok(m) => {
                let v = PipelineView { conn: self.conn.with_message(m), ..self };
                if asynchronous(m.type_byte) {
                    (
                        v,
                        match v.conn.heard() {
                            Some(heard) => NextView::Notify(heard),
                            None => NextView::Read,
                        },
                    )
                } else if self.phase is CatchUp || self.phase is Settle || self.phase is DrainSync {
                    v.confirmed()
                } else if self.phase is DrainExec {
                    v.discarded()
                } else if m.type_byte == ERROR_RESPONSE {
                    v.refused()
                } else {
                    v.answered()
                }
            },
        }
    }

    /// A message for an operation that waits for ReadyForQuery.
    pub open spec fn confirmed(self) -> (PipelineView<H>, NextView) {
        if self.conn.type_byte == ERROR_RESPONSE {
            match error_of(self.conn.read_buffer) {
                Err(e) => self.unconfirmed(e),
                Ok(fields) => PipelineView {
                    conn: ConnView {
                        broken: self.conn.broken || ends_session(fields),
                        ..self.conn
                    },
                    ..self
                }.unconfirmed(ErrorView::Server(fields)),
            }
        } else if self.conn.type_byte == READY_FOR_QUERY {
            match ready_of(self.conn.read_buffer) {
                Err(e) => self.unconfirmed(e),
                Ok(status) => {
                    let v = PipelineView {
                        conn: ConnView {
                            transaction_status: status,
                            scope_pending: self.expectations.len() > 0,
                            ..self.conn
                        },
                        aborted: false,
                        ..self
                    };
                    match self.phase {
                        PhaseView::CatchUp(source) => v.claim_next(source),
                        PhaseView::Settle(result) => v.settle(result),
                        _ => v.drain(),
                    }
                },
            }
        } else {
            (self, NextView::Read)
        }
    }

    /// ReadyForQuery does not come.
    pub open spec fn unconfirmed(self, e: ErrorView) -> (PipelineView<H>, NextView) {
        self.over(
            if self.phase is DrainSync {
                Ok(())
            } else {
                Err(e)
            },
        )
    }

    /// A message for a cleanup that discards the answers to an execution.
    pub open spec fn discarded(self) -> (PipelineView<H>, NextView) {
        if self.conn.type_byte == ERROR_RESPONSE {
            match error_of(self.conn.read_buffer) {
                Err(_) => self.over(Ok(())),
                Ok(fields) => if ends_session(fields) {
                    PipelineView { conn: ConnView { broken: true, ..self.conn }, ..self }.over(
                        Ok(()),
                    )
                } else {
                    PipelineView { aborted: true, ..self }.drain()
                },
            }
        } else if self.conn.type_byte == COMMAND_COMPLETE {
            match complete_of(self.conn.read_buffer) {
                Ok(_) => self.drain(),
                Err(_) => self.over(Ok(())),
            }
        } else if self.conn.type_byte == EMPTY_QUERY_RESPONSE {
            match empty_of(self.conn.read_buffer, "EmptyQueryResponse"@) {
                Ok(_) => self.drain(),
                Err(_) => self.over(Ok(())),
            }
        } else if self.conn.type_byte == PARSE_COMPLETE || self.conn.type_byte == BIND_COMPLETE || self.conn.type_byte
            == ROW_DESCRIPTION || self.conn.type_byte == NO_DATA || self.conn.type_byte == DATA_ROW {
            (self, NextView::Read)
        } else {
            self.over(Ok(()))
        }
    }

    /// A server error in place of an answer to a claim. Where the session goes on, the pipeline is
    /// aborted and the claim is done with; else the exchange stays unfinished.
    pub open spec fn refused(self) -> (PipelineView<H>, NextView) {
        match error_of(self.conn.read_buffer) {
            Err(e) => self.over(Err(e)),
            Ok(fields) => {
                let e = ErrorView::Server(fields);
                if ends_session(fields) {
                    PipelineView { conn: ConnView { broken: true, ..self.conn }, ..self }.over(
                        Err(e),
                    )
                } else if self.conn.broken {
                    PipelineView { aborted: true, ..self }.over(Err(e))
                } else {
                    PipelineView { aborted: true, ..self }.claimed(Err(e))
                }
            },
        }
    }

    /// An answer to a claim. One that does not fit leaves the exchange unfinished.
    pub open spec fn answered(self) -> (PipelineView<H>, NextView) {
        let payload = self.conn.read_buffer;
        match self.phase {
            PhaseView::AwaitParse => if self.conn.type_byte == PARSE_COMPLETE {
                match empty_of(payload, "ParseComplete"@) {
                    Ok(_) => self.reads(PhaseView::AwaitBind(Columns::Announced)),
                    Err(e) => self.over(Err(e)),
                }
            } else {
                self.over(Err(unexpected("ParseComplete"@, self.conn.type_byte)))
            },
            PhaseView::AwaitBind(source) => if self.conn.type_byte == BIND_COMPLETE {
                match empty_of(payload, "BindComplete"@) {
                    Ok(_) => self.reads(
                        if source == Columns::Announced {
                            PhaseView::AwaitColumns
                        } else {
                            PhaseView::Rows(source)
                        },
                    ),
                    Err(e) => self.over(Err(e)),
                }
            } else {
                self.over(Err(unexpected("BindComplete"@, self.conn.type_byte)))
            },
            PhaseView::AwaitColumns => if self.conn.type_byte == ROW_DESCRIPTION {
                PipelineView { columns: payload, ..self }.reads(PhaseView::Rows(Columns::Announced))
            } else if self.conn.type_byte == NO_DATA {
                match empty_of(payload, "NoData"@) {
                    Ok(_) => self.reads(PhaseView::Rows(Columns::Absent)),
                    Err(e) => self.over(Err(e)),
                }
            } else {
                self.over(Err(unexpected("RowDescription or NoData"@, self.conn.type_byte)))
            },
            PhaseView::Rows(source) => if self.conn.type_byte == DATA_ROW {
                self.row(payload, source)
            } else if self.conn.type_byte == COMMAND_COMPLETE {
                match complete_of(payload) {
                    Ok(tag) => (
                        PipelineView { phase: PhaseView::InEnd, ..self },
                        NextView::End(tag),
                    ),
                    Err(e) => self.over(Err(e)),
                }
            } else if self.conn.type_byte == EMPTY_QUERY_RESPONSE {
                match empty_of(payload, "EmptyQueryResponse"@) {
                    Ok(_) => self.claimed(Ok(())),
                    Err(e) => self.over(Err(e)),
                }
            } else {
                self.over(
                    Err(
                        ErrorView::LibraryBug(
                            quoted("unexpected message type in pipeline claim: "@, self.conn.type_byte),
                        ),
                    ),
                )
            },
            _ => (self, NextView::Read),
        }
    }

    /// A row for a claim.
    pub open spec fn row(self, payload: Seq<u8>, source: Columns) -> (PipelineView<H>, NextView) {
        match source {
            Columns::Absent => self.over(
                Err(ErrorView::LibraryBug("received DataRow but no RowDescription"@)),
            ),
            Columns::Uncached => self.over(
                Err(ErrorView::LibraryBug("received DataRow but no RowDescription cached"@)),
            ),
            _ => match columns_of(self.columns) {
                Err(e) => self.over(Err(e)),
                Ok(columns) => match row_of(payload) {
                    Err(e) => self.over(Err(e)),
                    Ok(row) => (
                        PipelineView { phase: PhaseView::InRow(source), ..self },
                        NextView::Row(columns, row),
                    ),
                },
            },
        }
    }

    /// The handler has answered. Its error leaves the exchange unfinished.
    pub open spec fn called_back(self, answer: Result<(), Error>) -> (PipelineView<H>, NextView) {
        match answer {
            Err(e) => self.over(Err(e@)),
            Ok(()) => match self.phase {
                PhaseView::InRow(source) => self.reads(PhaseView::Rows(source)),
                _ => self.claimed(Ok(())),
            },
        }
    }
}

} // verus!
