//! What holds of every course that a pipeline can take.

use vstd::prelude::*;

use crate::conn::ConnView;
use crate::error::{ends_session, Error, ErrorView};
use crate::pipeline::model::{
    begins_with_sync, ends_in_sync, from_first_sync, out_of_order, without_first, Columns,
    Expectation, NextView, PhaseView, PipelineView, Purpose,
};
use crate::protocol::backend::{
    async_of, asynchronous, complete_of, error_of, ready_of, Message, BIND_COMPLETE,
    COMMAND_COMPLETE, DATA_ROW, EMPTY_QUERY_RESPONSE, ERROR_RESPONSE, NO_DATA, PARSE_COMPLETE,
    READY_FOR_QUERY, ROW_DESCRIPTION,
};

verus! {

/// What can happen to a pipeline.
pub enum Event {
    /// An execution was queued.
    Exec { messages: Seq<u8>, expectation: Expectation },
    Flush,
    Sync,
    Claim { seq: nat, cached: Option<Seq<u8>> },
    Cleanup,
    /// The write buffer was written, or not.
    Sent(Result<(), Error>),
    /// A message was read, or not.
    Received(Result<Message, Error>),
    /// The handler has answered.
    CalledBack(Result<(), Error>),
    /// The pipeline was given up.
    Abandon,
}

/// How many Syncs a queue holds.
pub open spec fn sync_count(expectations: Seq<Expectation>) -> nat
    decreases expectations.len(),
{
    if expectations.len() == 0 {
        0
    } else {
        sync_count(expectations.drop_first()) + if expectations[0] == Expectation::Sync {
            1nat
        } else {
            0nat
        }
    }
}

impl<H> PipelineView<H> {
    /// The event can happen in this state.
    pub open spec fn possible(self, event: Event) -> bool {
        match event {
            Event::Exec { expectation, .. } => self.conn.ready() && expectation
                != Expectation::Sync,
            Event::Sent(_) => self.phase is Sending,
            Event::Received(_) => self.reading(),
            Event::CalledBack(_) => self.calling(),
            _ => true,
        }
    }

    /// The state after an event.
    pub open spec fn after(self, event: Event) -> PipelineView<H> {
        match event {
            Event::Exec { messages, expectation } => self.queued(messages, expectation),
            Event::Flush => self.flush().0,
            Event::Sync => self.sync().0,
            Event::Claim { seq, cached } => self.claim(seq, cached).0,
            Event::Cleanup => self.cleanup().0,
            Event::Sent(written) => self.sent(written).0,
            Event::Received(message) => self.received(message).0,
            Event::CalledBack(answer) => self.called_back(answer).0,
            Event::Abandon => PipelineView {
                conn: ConnView {
                    broken: self.conn.broken || self.conn.scope_pending,
                    ..self.conn
                },
                ..self
            },
        }
    }

    /// A Sync goes out to the server with this event.
    pub open spec fn sends_sync(self, event: Event) -> bool {
        event matches Event::Sent(written) && written is Ok && self.phase != PhaseView::Sending(
            Purpose::Flush,
        )
    }

    /// The state after a course of events.
    pub open spec fn course(self, events: Seq<Event>) -> PipelineView<H>
        decreases events.len(),
    {
        if events.len() == 0 {
            self
        } else {
            self.course(events.drop_last()).after(events.last())
        }
    }

    /// Each event of the course can happen where it does.
    pub open spec fn regular(self, events: Seq<Event>) -> bool
        decreases events.len(),
    {
        events.len() == 0 || (self.regular(events.drop_last()) && self.course(
            events.drop_last(),
        ).possible(events.last()))
    }

    /// How many Syncs go out to the server during a course of events.
    pub open spec fn syncs_sent(self, events: Seq<Event>) -> nat
        decreases events.len(),
    {
        if events.len() == 0 {
            0
        } else {
            self.syncs_sent(events.drop_last()) + if self.course(events.drop_last()).sends_sync(
                events.last(),
            ) {
                1nat
            } else {
                0nat
            }
        }
    }

    /// No operation can go on with this connection: it has failed, or an exchange was left
    /// unfinished.
    pub open spec fn dead(self) -> bool {
        self.conn.broken || (self.phase is Idle && self.conn.in_progress)
    }

    /// The Syncs that the server has not answered are those in the queue, but for the one that is
    /// being sent or waited for.
    pub open spec fn balanced(self, unanswered: int) -> bool {
        &&& !self.conn.scope_pending ==> sync_count(self.expectations) == 0
        &&& !(self.phase is Idle) ==> self.conn.in_progress
        &&& unanswered == sync_count(self.expectations) + match self.phase {
            PhaseView::Sending(purpose) => if purpose == Purpose::Flush {
                0int
            } else {
                -1int
            },
            PhaseView::CatchUp(_) => 1int,
            PhaseView::Settle(_) => 1int,
            PhaseView::DrainSync => 1int,
            _ => 0int,
        }
    }
}

/// The event is a ReadyForQuery from the server.
pub open spec fn is_answer(event: Event) -> bool {
    event matches Event::Received(Ok(m)) && m.type_byte == READY_FOR_QUERY
}

/// How many ReadyForQuery come from the server during a course of events.
pub open spec fn answers(events: Seq<Event>) -> nat
    decreases events.len(),
{
    if events.len() == 0 {
        0
    } else {
        answers(events.drop_last()) + if is_answer(events.last()) {
            1nat
        } else {
            0nat
        }
    }
}

proof fn sync_count_push(expectations: Seq<Expectation>, e: Expectation)
    ensures
        sync_count(expectations.push(e)) == sync_count(expectations) + if e == Expectation::Sync {
            1nat
        } else {
            0nat
        },
    decreases expectations.len(),
{
    let pushed = expectations.push(e);
    if expectations.len() == 0 {
        assert(pushed.drop_first() =~= Seq::empty());
        assert(sync_count(pushed.drop_first()) == 0);
    } else {
        assert(pushed.drop_first() =~= expectations.drop_first().push(e));
        sync_count_push(expectations.drop_first(), e);
    }
}

proof fn sync_count_from_first(expectations: Seq<Expectation>)
    ensures
        sync_count(from_first_sync(expectations)) == sync_count(expectations),
    decreases expectations.len(),
{
    if expectations.len() > 0 && expectations[0] != Expectation::Sync {
        sync_count_from_first(expectations.drop_first());
    }
}

/// A connection that has failed, or that was left in the middle of an exchange, stays so whatever
/// its pipeline does.
pub proof fn dead_stays_dead<H>(v: PipelineView<H>, event: Event)
    requires
        v.dead(),
        v.possible(event),
    ensures
        v.after(event).dead(),
        !v.after(event).conn.usable(),
{
}

/// The balance of a state in which no Sync is being sent or waited for.
spec fn even<H>(v: PipelineView<H>, unanswered: int) -> bool {
    &&& !v.conn.scope_pending ==> sync_count(v.expectations) == 0
    &&& unanswered == sync_count(v.expectations)
}

proof fn settle_balanced<H>(
    v: PipelineView<H>,
    result: Result<(), ErrorView>,
    unanswered: int,
)
    requires
        even(v, unanswered),
        v.conn.in_progress,
    ensures
        v.settle(result).0.balanced(unanswered),
{
}

proof fn drain_balanced<H>(v: PipelineView<H>, unanswered: int)
    requires
        even(v, unanswered),
        v.conn.in_progress,
    ensures
        v.drain().0.balanced(unanswered),
{
    sync_count_from_first(v.expectations);
}

proof fn claim_next_balanced<H>(v: PipelineView<H>, source: Columns, unanswered: int)
    requires
        even(v, unanswered),
        v.conn.in_progress,
    ensures
        v.claim_next(source).0.dead() || v.claim_next(source).0.balanced(unanswered),
{
    let w = PipelineView {
        expectations: without_first(v.expectations),
        claim_seq: v.claim_seq + 1,
        ..v
    };
    if v.aborted && !begins_with_sync(v.expectations) {
        assert(sync_count(w.expectations) == sync_count(v.expectations));
        settle_balanced(
            w,
            Err(ErrorView::LibraryBug("pipeline aborted due to earlier error"@)),
            unanswered,
        );
    }
}

proof fn received_balanced<H>(v: PipelineView<H>, message: Result<Message, Error>, unanswered: int)
    requires
        !v.dead(),
        v.balanced(unanswered),
        v.reading(),
    ensures
        v.received(message).0.dead() || v.received(message).0.balanced(
            unanswered - if is_answer(Event::Received(message)) {
                1int
            } else {
                0int
            },
        ),
{
    if let Ok(m) = message {
        let w = PipelineView { conn: v.conn.with_message(m), ..v };
        if v.phase is CatchUp || v.phase is Settle || v.phase is DrainSync {
            if m.type_byte == READY_FOR_QUERY {
                if let Ok(status) = ready_of(m.payload@) {
                    let u = PipelineView {
                        conn: ConnView {
                            transaction_status: status,
                            scope_pending: v.expectations.len() > 0,
                            ..w.conn
                        },
                        aborted: false,
                        ..w
                    };
                    drain_balanced(u, unanswered - 1);
                    if let PhaseView::Settle(result) = v.phase {
                        settle_balanced(u, result, unanswered - 1);
                    }
                    if let PhaseView::CatchUp(source) = v.phase {
                        claim_next_balanced(u, source, unanswered - 1);
                    }
                }
            }
        } else if v.phase is DrainExec {
            drain_balanced(w, unanswered);
            drain_balanced(PipelineView { aborted: true, ..w }, unanswered);
        } else {
            let u = PipelineView { claim_seq: w.claim_seq + 1, ..w };
            settle_balanced(u, Ok(()), unanswered);
            if let Ok(fields) = error_of(m.payload@) {
                settle_balanced(
                    PipelineView { aborted: true, ..u },
                    Err(ErrorView::Server(fields)),
                    unanswered,
                );
            }
        }
    }
}

proof fn sent_balanced<H>(v: PipelineView<H>, written: Result<(), Error>, unanswered: int)
    requires
        !v.dead(),
        v.balanced(unanswered),
        v.phase is Sending,
    ensures
        v.sent(written).0.dead() || v.sent(written).0.balanced(
            unanswered + if v.sends_sync(Event::Sent(written)) {
                1int
            } else {
                0int
            },
        ),
{
    if written is Ok {
        let w = PipelineView {
            conn: ConnView { write_buffer: Seq::empty(), in_progress: false, ..v.conn },
            phase: PhaseView::Idle,
            ..v
        };
        let begun = PipelineView { conn: ConnView { in_progress: true, ..w.conn }, ..w };
        match v.phase->Sending_0 {
            Purpose::Claim(source) => claim_next_balanced(begun, source, unanswered + 1),
            Purpose::Cleanup => drain_balanced(begun, unanswered + 1),
            _ => {},
        }
    }
}

proof fn stays_balanced<H>(v: PipelineView<H>, event: Event, unanswered: int)
    requires
        v.dead() || v.balanced(unanswered),
        v.possible(event),
    ensures
        ({
            let now = unanswered + if v.sends_sync(event) {
                1int
            } else {
                0int
            } - if is_answer(event) {
                1int
            } else {
                0int
            };
            v.after(event).dead() || v.after(event).balanced(now)
        }),
{
    if v.dead() {
        dead_stays_dead(v, event);
    } else {
        sync_count_push(v.expectations, Expectation::Sync);
        match event {
            Event::Exec { expectation, .. } => sync_count_push(v.expectations, expectation),
            Event::Claim { seq, cached } => {
                if v.conn.ready() && seq == v.claim_seq && v.conn.write_buffer.len() == 0 {
                    let (columns, source) = match cached {
                        Some(payload) => (payload, Columns::Cached),
                        None => (v.columns, Columns::Uncached),
                    };
                    claim_next_balanced(
                        PipelineView {
                            columns,
                            conn: ConnView { in_progress: true, ..v.conn },
                            ..v
                        },
                        source,
                        unanswered,
                    );
                }
            },
            Event::Cleanup => {
                if v.conn.ready() {
                    drain_balanced(
                        PipelineView { conn: ConnView { in_progress: true, ..v.conn }, ..v },
                        unanswered,
                    );
                }
            },
            Event::Sent(written) => sent_balanced(v, written, unanswered),
            Event::Received(message) => received_balanced(v, message, unanswered),
            Event::CalledBack(_) => {
                settle_balanced(
                    PipelineView { claim_seq: v.claim_seq + 1, ..v },
                    Ok(()),
                    unanswered,
                );
            },
            _ => {},
        }
    }
}

proof fn course_is_balanced<H>(v: PipelineView<H>, events: Seq<Event>)
    requires
        v == PipelineView::fresh(v.conn),
        v.conn.usable(),
        v.regular(events),
    ensures
        v.course(events).dead() || v.course(events).balanced(
            v.syncs_sent(events) - answers(events),
        ),
    decreases events.len(),
{
    if events.len() > 0 {
        course_is_balanced(v, events.drop_last());
        stays_balanced(
            v.course(events.drop_last()),
            events.last(),
            v.syncs_sent(events.drop_last()) - answers(events.drop_last()),
        );
    }
}

/// A pipeline that leaves its connection usable leaves nothing owed: whatever course it took from
/// a usable connection, the server has answered every Sync that was sent to it.
pub proof fn usable_means_answered<H>(v: PipelineView<H>, events: Seq<Event>)
    requires
        v == PipelineView::fresh(v.conn),
        v.conn.usable(),
        v.regular(events),
        v.course(events).conn.usable(),
    ensures
        v.syncs_sent(events) == answers(events),
{
    course_is_balanced(v, events);
}

/// The last ReadyForQuery that is owed makes the connection usable again, with the transaction
/// status that it brings, and the pipeline is no longer aborted. After a cleanup the pipeline
/// counts from the beginning.
pub proof fn last_answer_restores_use<H>(v: PipelineView<H>, m: Message)
    requires
        !v.conn.broken,
        v.phase is Settle || v.phase is DrainSync,
        v.expectations.len() == 0,
        m.type_byte == READY_FOR_QUERY,
        ready_of(m.payload@) is Ok,
    ensures
        ({
            let w = v.received(Ok(m)).0;
            &&& w.conn.usable()
            &&& w.conn.transaction_status == ready_of(m.payload@)->Ok_0
            &&& w.phase is Idle
            &&& !w.aborted
            &&& v.phase is DrainSync ==> w.queue_seq == 0 && w.claim_seq == 0
        }),
{
}

/// Results are claimed in the order in which the executions were queued: a claim of another
/// number than the next one is refused and changes nothing, and an event moves the next number on
/// by one at most, unless a cleanup sets it back.
pub proof fn claims_are_in_order<H>(v: PipelineView<H>, event: Event)
    requires
        v.possible(event),
    ensures
        match event {
            Event::Claim { seq, cached } => v.conn.ready() && seq != v.claim_seq ==> v.claim(
                seq,
                cached,
            ) == (v, NextView::Done(Err(out_of_order(v.claim_seq, seq)))),
            _ => true,
        },
        ({
            let next = v.after(event).claim_seq;
            next == v.claim_seq || next == v.claim_seq + 1 || next == 0
        }),
{
}

/// Every claim of the course is of a ticket that was handed out since the pipeline was created or
/// cleaned up.
pub open spec fn own_tickets<H>(v: PipelineView<H>, events: Seq<Event>) -> bool
    decreases events.len(),
{
    events.len() == 0 || {
        let w = v.course(events.drop_last());
        own_tickets(v, events.drop_last()) && w.possible(events.last()) && match events.last() {
            Event::Claim { seq, .. } => seq < w.queue_seq,
            _ => true,
        }
    }
}

/// How many executions a queue holds.
pub open spec fn execution_count(expectations: Seq<Expectation>) -> int {
    expectations.len() - sync_count(expectations)
}

/// The queue holds the executions that were queued and not claimed, but for the one whose answers
/// are being taken.
spec fn in_step<H>(v: PipelineView<H>) -> bool {
    v.claim_seq + execution_count(v.expectations) + (if v.claiming() && !(v.phase is Sending)
        && !(v.phase is CatchUp) {
        1int
    } else {
        0int
    }) == v.queue_seq
}

/// No claim has overtaken the queue, and where the pipeline can go on, it is in step with it.
spec fn behind<H>(v: PipelineView<H>) -> bool {
    &&& v.claim_seq <= v.queue_seq
    &&& v.claiming() ==> v.claim_seq < v.queue_seq
    &&& !(v.phase is Idle) ==> v.conn.in_progress
    &&& v.phase is Idle && v.conn.in_progress || v.phase is DrainExec || v.phase is DrainSync
        || in_step(v)
}

proof fn sync_count_bounded(expectations: Seq<Expectation>)
    ensures
        sync_count(expectations) <= expectations.len(),
    decreases expectations.len(),
{
    if expectations.len() > 0 {
        sync_count_bounded(expectations.drop_first());
    }
}

proof fn settle_behind<H>(v: PipelineView<H>, result: Result<(), ErrorView>)
    requires
        v.conn.in_progress,
        v.claim_seq + execution_count(v.expectations) == v.queue_seq,
    ensures
        behind(v.settle(result).0),
{
    sync_count_bounded(v.expectations);
}

proof fn drain_behind<H>(v: PipelineView<H>)
    requires
        v.conn.in_progress,
        v.claim_seq <= v.queue_seq,
    ensures
        behind(v.drain().0),
{
}

proof fn claim_next_behind<H>(v: PipelineView<H>, source: Columns)
    requires
        v.conn.in_progress,
        v.claim_seq < v.queue_seq,
        v.claim_seq + execution_count(v.expectations) == v.queue_seq,
    ensures
        behind(v.claim_next(source).0),
{
    let w = PipelineView {
        expectations: without_first(v.expectations),
        claim_seq: v.claim_seq + 1,
        ..v
    };
    sync_count_bounded(w.expectations);
    if v.aborted && !begins_with_sync(v.expectations) {
        settle_behind(w, Err(ErrorView::LibraryBug("pipeline aborted due to earlier error"@)));
    }
}

proof fn received_behind<H>(v: PipelineView<H>, message: Result<Message, Error>)
    requires
        behind(v),
        v.reading(),
    ensures
        behind(v.received(message).0),
{
    if let Ok(m) = message {
        let w = PipelineView { conn: v.conn.with_message(m), ..v };
        if v.phase is CatchUp || v.phase is Settle || v.phase is DrainSync {
            if let Ok(status) = ready_of(m.payload@) {
                let u = PipelineView {
                    conn: ConnView {
                        transaction_status: status,
                        scope_pending: v.expectations.len() > 0,
                        ..w.conn
                    },
                    aborted: false,
                    ..w
                };
                match v.phase {
                    PhaseView::CatchUp(source) => claim_next_behind(u, source),
                    PhaseView::Settle(result) => settle_behind(u, result),
                    _ => drain_behind(u),
                }
            }
        } else if v.phase is DrainExec {
            drain_behind(w);
            drain_behind(PipelineView { aborted: true, ..w });
        } else {
            let u = PipelineView { claim_seq: w.claim_seq + 1, ..w };
            settle_behind(u, Ok(()));
            if let Ok(fields) = error_of(m.payload@) {
                settle_behind(PipelineView { aborted: true, ..u }, Err(ErrorView::Server(fields)));
            }
        }
    }
}

proof fn stays_behind<H>(v: PipelineView<H>, event: Event)
    requires
        behind(v),
        v.possible(event),
        match event {
            Event::Claim { seq, .. } => seq < v.queue_seq,
            _ => true,
        },
    ensures
        behind(v.after(event)),
{
    sync_count_push(v.expectations, Expectation::Sync);
    match event {
        Event::Exec { expectation, .. } => sync_count_push(v.expectations, expectation),
        Event::Claim { seq, cached } => {
            if v.conn.ready() && seq == v.claim_seq && v.conn.write_buffer.len() == 0 {
                let (columns, source) = match cached {
                    Some(payload) => (payload, Columns::Cached),
                    None => (v.columns, Columns::Uncached),
                };
                claim_next_behind(
                    PipelineView {
                        columns,
                        conn: ConnView { in_progress: true, ..v.conn },
                        ..v
                    },
                    source,
                );
            }
        },
        Event::Cleanup => {
            if v.conn.ready() {
                drain_behind(
                    PipelineView { conn: ConnView { in_progress: true, ..v.conn }, ..v },
                );
            }
        },
        Event::Sent(written) => {
            if written is Ok {
                let w = PipelineView {
                    conn: ConnView { write_buffer: Seq::empty(), in_progress: true, ..v.conn },
                    phase: PhaseView::Idle,
                    ..v
                };
                match v.phase->Sending_0 {
                    Purpose::Claim(source) => claim_next_behind(w, source),
                    Purpose::Cleanup => drain_behind(w),
                    _ => {},
                }
            }
        },
        Event::Received(message) => received_behind(v, message),
        Event::CalledBack(_) => {
            settle_behind(PipelineView { claim_seq: v.claim_seq + 1, ..v }, Ok(()));
        },
        _ => {},
    }
}

proof fn course_stays_behind<H>(v: PipelineView<H>, events: Seq<Event>)
    requires
        v == PipelineView::fresh(v.conn),
        own_tickets(v, events),
    ensures
        behind(v.course(events)),
    decreases events.len(),
{
    if events.len() > 0 {
        course_stays_behind(v, events.drop_last());
        stays_behind(v.course(events.drop_last()), events.last());
    }
}

/// No more executions are claimed than were queued, on any course on which each claim is of a
/// ticket of this pipeline. So the number of executions that were queued and not claimed is there.
pub proof fn claims_never_overtake<H>(v: PipelineView<H>, events: Seq<Event>)
    requires
        v == PipelineView::fresh(v.conn),
        own_tickets(v, events),
    ensures
        v.course(events).claim_seq <= v.course(events).queue_seq,
{
    course_stays_behind(v, events);
}

/// Between two operations, the executions that were queued and not claimed are those in the queue,
/// on any course on which each claim is of a ticket of this pipeline: none is counted that was not
/// queued, and a claim always takes an execution.
pub proof fn pending_executions_are_queued<H>(v: PipelineView<H>, events: Seq<Event>)
    requires
        v == PipelineView::fresh(v.conn),
        own_tickets(v, events),
        v.course(events).phase is Idle,
        !v.course(events).conn.in_progress,
    ensures
        ({
            let w = v.course(events);
            w.queue_seq - w.claim_seq == execution_count(w.expectations)
        }),
{
    course_stays_behind(v, events);
}

/// The event is one that a cleanup waits for: the write of what it sends, or a message that answers
/// what the server owes. An execution is answered by its messages or by an error that does not end
/// the session, a Sync by ReadyForQuery.
pub open spec fn is_owed<H>(v: PipelineView<H>, event: Event) -> bool {
    match event {
        Event::Sent(written) => v.phase is Sending && written is Ok,
        Event::Received(Ok(m)) => match v.phase {
            PhaseView::DrainExec => {
                ||| asynchronous(m.type_byte)
                ||| m.type_byte == PARSE_COMPLETE
                ||| m.type_byte == BIND_COMPLETE
                ||| m.type_byte == ROW_DESCRIPTION
                ||| m.type_byte == NO_DATA
                ||| m.type_byte == DATA_ROW
                ||| m.type_byte == COMMAND_COMPLETE && complete_of(m.payload@) is Ok
                ||| m.type_byte == EMPTY_QUERY_RESPONSE && m.payload@.len() == 0
                ||| m.type_byte == ERROR_RESPONSE && (error_of(m.payload@) matches Ok(fields)
                    && !ends_session(fields))
            },
            PhaseView::DrainSync => asynchronous(m.type_byte) || (m.type_byte == READY_FOR_QUERY
                && ready_of(m.payload@) is Ok),
            _ => false,
        },
        _ => false,
    }
}

/// Each event of the course is one that a cleanup waits for where it comes.
pub open spec fn all_owed<H>(v: PipelineView<H>, events: Seq<Event>) -> bool
    decreases events.len(),
{
    events.len() == 0 || (all_owed(v, events.drop_last()) && is_owed(
        v.course(events.drop_last()),
        events.last(),
    ))
}

/// A cleanup on its way to a usable connection.
spec fn draining<H>(v: PipelineView<H>) -> bool {
    &&& !v.conn.broken
    &&& match v.phase {
        PhaseView::Idle => v.conn.usable() && v.expectations.len() == 0 && v.queue_seq == 0
            && v.claim_seq == 0,
        PhaseView::Sending(purpose) => purpose == Purpose::Cleanup && ends_in_sync(v.expectations),
        PhaseView::DrainExec => ends_in_sync(v.expectations),
        PhaseView::DrainSync => v.expectations.len() == 0 || ends_in_sync(v.expectations),
        _ => false,
    }
}

proof fn first_sync_keeps_last(expectations: Seq<Expectation>)
    ensures
        ends_in_sync(expectations) ==> ends_in_sync(from_first_sync(expectations)),
    decreases expectations.len(),
{
    if ends_in_sync(expectations) && expectations[0] != Expectation::Sync {
        assert(expectations.drop_first().last() == expectations.last());
        first_sync_keeps_last(expectations.drop_first());
    }
}

proof fn drain_drains<H>(v: PipelineView<H>)
    requires
        !v.conn.broken,
        ends_in_sync(v.expectations) || (v.expectations.len() == 0 && !v.conn.scope_pending),
    ensures
        draining(v.drain().0),
{
    first_sync_keeps_last(v.expectations);
}

proof fn stays_draining<H>(v: PipelineView<H>, event: Event)
    requires
        draining(v),
        is_owed(v, event),
    ensures
        draining(v.after(event)),
{
    match event {
        Event::Sent(_) => drain_drains(
            PipelineView {
                conn: ConnView { write_buffer: Seq::empty(), in_progress: true, ..v.conn },
                phase: PhaseView::Idle,
                ..v
            },
        ),
        Event::Received(Ok(m)) => {
            let w = PipelineView { conn: v.conn.with_message(m), ..v };
            if v.phase is DrainExec {
                drain_drains(w);
                drain_drains(PipelineView { aborted: true, ..w });
            } else if let Ok(status) = ready_of(m.payload@) {
                drain_drains(
                    PipelineView {
                        conn: ConnView {
                            transaction_status: status,
                            scope_pending: v.expectations.len() > 0,
                            ..w.conn
                        },
                        aborted: false,
                        ..w
                    },
                );
            }
        },
        _ => {},
    }
}

proof fn course_stays_draining<H>(v: PipelineView<H>, events: Seq<Event>)
    requires
        draining(v),
        all_owed(v, events),
    ensures
        draining(v.course(events)),
    decreases events.len(),
{
    if events.len() > 0 {
        course_stays_draining(v, events.drop_last());
        stays_draining(v.course(events.drop_last()), events.last());
    }
}

/// A cleanup that is answered drains whatever is owed: begun between two operations of a connection
/// that can go on, whatever was queued, flushed or synced before, and with no answer that ends the
/// session, it ends with a usable connection and an empty queue. Where anything was owed, the
/// pipeline counts from the beginning.
pub proof fn cleanup_restores_use<H>(v: PipelineView<H>, events: Seq<Event>)
    requires
        v.conn.ready(),
        v.phase is Idle,
        all_owed(v.after(Event::Cleanup), events),
        v.after(Event::Cleanup).course(events).phase is Idle,
    ensures
        ({
            let w = v.after(Event::Cleanup).course(events);
            &&& w.conn.usable()
            &&& w.expectations.len() == 0
            &&& v.expectations.len() > 0 || v.conn.scope_pending ==> w.queue_seq == 0
                && w.claim_seq == 0
        }),
{
    let w = v.after(Event::Cleanup);
    if v.expectations.len() == 0 && !v.conn.scope_pending {
        nothing_is_owed_when_idle(w, events);
    } else {
        drain_drains_if_synced(v);
        course_stays_draining(w, events);
    }
}

proof fn drain_drains_if_synced<H>(v: PipelineView<H>)
    requires
        v.conn.ready(),
        v.expectations.len() > 0 || v.conn.scope_pending,
    ensures
        draining(v.after(Event::Cleanup)),
{
    if v.conn.write_buffer.len() == 0 && ends_in_sync(v.expectations) {
        drain_drains(PipelineView { conn: ConnView { in_progress: true, ..v.conn }, ..v });
    }
}

proof fn nothing_is_owed_when_idle<H>(v: PipelineView<H>, events: Seq<Event>)
    requires
        v.phase is Idle,
        all_owed(v, events),
    ensures
        events.len() == 0,
    decreases events.len(),
{
    if events.len() > 0 {
        nothing_is_owed_when_idle(v, events.drop_last());
    }
}

/// A cleanup comes to its end: with each response that it goes on to wait for, the queue of what it
/// is owed is shorter.
pub proof fn cleanup_comes_to_an_end<H>(v: PipelineView<H>)
    ensures
        v.drain().0.phase is Idle || v.drain().0.expectations.len() < v.expectations.len(),
{
    from_first_sync_bounded(v.expectations);
}

proof fn from_first_sync_bounded(expectations: Seq<Expectation>)
    ensures
        from_first_sync(expectations).len() <= expectations.len(),
    decreases expectations.len(),
{
    if expectations.len() > 0 && expectations[0] != Expectation::Sync {
        from_first_sync_bounded(expectations.drop_first());
    }
}

/// A claim that finds Syncs at the head of the queue takes their ReadyForQuery first, and its own
/// execution after them: an answer that it waits for there ends the aborted state and goes on with
/// the claim.
pub proof fn claim_catches_up<H>(v: PipelineView<H>, source: Columns, m: Message)
    requires
        begins_with_sync(v.expectations),
        m.type_byte == READY_FOR_QUERY,
        ready_of(m.payload@) is Ok,
    ensures
        ({
            let (w, next) = v.claim_next(source);
            let rest = v.expectations.drop_first();
            &&& next == NextView::Read
            &&& w == (PipelineView {
                expectations: rest,
                phase: PhaseView::CatchUp(source),
                ..v
            })
            &&& w.received(Ok(m)) == (PipelineView {
                conn: ConnView {
                    transaction_status: ready_of(m.payload@)->Ok_0,
                    scope_pending: rest.len() > 0,
                    ..v.conn.with_message(m)
                },
                aborted: false,
                ..w
            }).claim_next(source)
        }),
{
}

/// A message for the handler of asynchronous messages is handed out, whatever the pipeline waits
/// for, and changes nothing but the message that was read last.
pub proof fn pipeline_handler_hears_every_message<H>(v: PipelineView<H>, m: Message)
    requires
        asynchronous(m.type_byte),
    ensures
        v.received(Ok(m)) == (
            PipelineView { conn: v.conn.with_message(m), ..v },
            match async_of(m.type_byte, m.payload@) {
                Some(a) if v.conn.handler is Some => NextView::Notify(a),
                _ => NextView::Read,
            },
        ),
{
}

/// A pipeline that is given up while it is owed something makes the connection fail for good.
pub proof fn abandoned_scope_fails<H>(v: PipelineView<H>)
    requires
        v.conn.scope_pending,
    ensures
        v.after(Event::Abandon).conn.broken,
        v.after(Event::Abandon).dead(),
{
}

} // verus!
