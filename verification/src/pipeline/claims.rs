//! What a pipeline asks of the server, and what its claims give.

use vstd::prelude::*;
use vstd::string::*;

use crate::conn::laws::{bind_request, numbered, names_are_numbered, unnamed_fits};
use crate::conn::{Conn, ConnView};
use crate::error::{ends_session, Error, ErrorView};
use crate::params::ToParams;
use crate::pipeline::laws::Event;
use crate::pipeline::model::{
    from_first_sync, out_of_order, Columns, Expectation, NextView, PhaseView, PipelineView, Purpose,
};
use crate::pipeline::{prepared_messages, sql_messages, Next, Pipeline, Ticket};
use crate::protocol::backend::{
    asynchronous, columns_of, complete_of, error_of, ready_of, row_of, Message,
};
use crate::protocol::frontend::{
    bind_frame, describe_portal_frame, execute_frame, flush_frame, parse_frame, sync_frame,
};
use crate::protocol::peer::{
    asks, asks_in_turn, bare_requests_are_read, bind_fits, bind_is_read, parse_fits, parse_is_read,
    portal_requests_are_read, Request,
};
use crate::statement::{statement_name, IntoStatement, StatementRef};
use crate::text::{all_digits, decimal, decimal_reads_back, number_in};

verus! {

/// The execution of SQL text asks the server to parse it for these types, to bind these values to
/// it, to tell the columns and to run it to the end, all without a name.
#[verifier::rlimit(40)]
pub proof fn sql_execution_is_read(
    sql: Seq<char>,
    oids: Seq<u32>,
    values: Seq<Option<Seq<u8>>>,
)
    requires
        parse_fits(Seq::empty(), sql, oids),
        bind_fits(Seq::empty(), Seq::empty(), values),
    ensures
        asks(
            sql_messages(sql, oids, values),
            seq![
                Request::Parse {
                    name: Seq::empty(),
                    sql,
                    oids: oids.map_values(|o: u32| o as nat),
                },
                bind_request(Seq::empty(), Seq::empty(), values),
                Request::DescribePortal { portal: Seq::empty() },
                Request::Execute { portal: Seq::empty(), max_rows: 0 },
            ],
        ),
{
    let no_name = Seq::<char>::empty();
    let p = seq![
        Request::Parse { name: no_name, sql, oids: oids.map_values(|o: u32| o as nat) },
    ];
    let b = seq![bind_request(no_name, no_name, values)];
    let d = seq![Request::DescribePortal { portal: no_name }];
    let x = seq![Request::Execute { portal: no_name, max_rows: 0 }];
    unnamed_fits();
    parse_is_read(no_name, sql, oids);
    bind_is_read(no_name, no_name, values);
    portal_requests_are_read(no_name, 0);
    let pf = parse_frame(no_name, sql, oids);
    let bf = bind_frame(no_name, no_name, values);
    let df = describe_portal_frame(no_name);
    asks_in_turn(pf, p, bf, b);
    asks_in_turn(pf + bf, p + b, df, d);
    asks_in_turn(pf + bf + df, p + b + d, execute_frame(no_name, 0), x);
    assert(p + b + d + x =~= seq![p[0], b[0], d[0], x[0]]);
}

/// The execution of a prepared statement asks the server to bind these values to the statement of
/// that name and to run it to the end.
pub proof fn prepared_execution_is_read(name: Seq<char>, values: Seq<Option<Seq<u8>>>)
    requires
        bind_fits(Seq::empty(), name, values),
    ensures
        asks(
            prepared_messages(name, values),
            seq![
                bind_request(Seq::empty(), name, values),
                Request::Execute { portal: Seq::empty(), max_rows: 0 },
            ],
        ),
{
    let no_name = Seq::<char>::empty();
    let b = seq![bind_request(no_name, name, values)];
    let x = seq![Request::Execute { portal: no_name, max_rows: 0 }];
    unnamed_fits();
    bind_is_read(no_name, name, values);
    portal_requests_are_read(no_name, 0);
    asks_in_turn(bind_frame(no_name, name, values), b, execute_frame(no_name, 0), x);
    assert(b + x =~= seq![b[0], x[0]]);
}

/// What [`Pipeline::exec`] queues is the execution of the statement with the parameters, behind all
/// that was queued before, and nothing else of the pipeline changes. The tickets count on, and that
/// of a prepared statement carries the columns that the statement knows. What cannot be encoded
/// leaves no trace.
#[verifier::rlimit(40)]
pub proof fn exec_queues_its_statement<'a, 's, H, S: IntoStatement + ?Sized, P: ToParams>(
    p: &mut Pipeline<'a, H>,
    statement: &'s S,
    params: P,
    r: Result<Ticket<'s>, Error>,
)
    requires
        call_ensures(Pipeline::<'a, H>::exec::<S, P>, (p, statement, params), r),
        old(p)@.conn.ready(),
    ensures
        ({
            let n = old(p)@.conn.write_buffer.len() as int;
            let now = final(p)@.conn.write_buffer;
            let queued = now.len() >= n && now.take(n) == old(p)@.conn.write_buffer && final(p)@
                == (PipelineView {
                conn: ConnView { write_buffer: now, ..old(p)@.conn },
                queue_seq: old(p)@.queue_seq + 1,
                expectations: final(p)@.expectations,
                ..old(p)@
            }) && (r matches Ok(t) && t.seq() == old(p)@.queue_seq);
            match statement.statement() {
                StatementRef::Sql(sql) => match params.encoded(params.natural()) {
                    Ok(values) => queued && (r matches Ok(t) && t.cached() is None)
                        && final(p)@.expectations == old(p)@.expectations.push(
                        Expectation::ParseBindExecute,
                    ) && (parse_fits(Seq::empty(), sql@, params.natural()) && bind_fits(
                        Seq::empty(),
                        Seq::empty(),
                        values,
                    ) ==> asks(
                        now.skip(n),
                        seq![
                            Request::Parse {
                                name: Seq::empty(),
                                sql: sql@,
                                oids: params.natural().map_values(|o: u32| o as nat),
                            },
                            bind_request(Seq::empty(), Seq::empty(), values),
                            Request::DescribePortal { portal: Seq::empty() },
                            Request::Execute { portal: Seq::empty(), max_rows: 0 },
                        ],
                    )),
                    Err(e) => final(p)@ == old(p)@ && (r matches Err(f) && f@ == e),
                },
                StatementRef::Prepared(stmt) => match params.encoded(stmt.param_oids@) {
                    Ok(values) => queued && (r matches Ok(t) && t.cached() == (
                    match stmt.row_desc_payload {
                        Some(d) => Some(d@),
                        None => None,
                    })) && final(p)@.expectations == old(p)@.expectations.push(
                        Expectation::BindExecute,
                    ) && exists|name: Seq<char>| #[trigger]
                        numbered(name, "_zero_s_"@, stmt.idx as nat) && (bind_fits(
                            Seq::empty(),
                            name,
                            values,
                        ) ==> asks(
                            now.skip(n),
                            seq![
                                bind_request(Seq::empty(), name, values),
                                Request::Execute { portal: Seq::empty(), max_rows: 0 },
                            ],
                        )),
                    Err(e) => final(p)@ == old(p)@ && (r matches Err(f) && f@ == e),
                },
            }
        }),
{
    let buffer = old(p)@.conn.write_buffer;
    let n = buffer.len() as int;
    match statement.statement() {
        StatementRef::Sql(sql) => {
            if let Ok(values) = params.encoded(params.natural()) {
                let m = sql_messages(sql@, params.natural(), values);
                assert((buffer + m).take(n) =~= buffer);
                assert((buffer + m).skip(n) =~= m);
                if parse_fits(Seq::empty(), sql@, params.natural()) && bind_fits(
                    Seq::empty(),
                    Seq::empty(),
                    values,
                ) {
                    sql_execution_is_read(sql@, params.natural(), values);
                }
            }
        },
        StatementRef::Prepared(stmt) => {
            if let Ok(values) = params.encoded(stmt.param_oids@) {
                let name = statement_name(stmt.idx as nat);
                names_are_numbered(stmt.idx as nat);
                let m = prepared_messages(name, values);
                assert((buffer + m).take(n) =~= buffer);
                assert((buffer + m).skip(n) =~= m);
                if bind_fits(Seq::empty(), name, values) {
                    prepared_execution_is_read(name, values);
                }
                assert(numbered(name, "_zero_s_"@, stmt.idx as nat));
            }
        },
    }
}

/// The first execution in a queue of responses.
pub open spec fn next_execution(expectations: Seq<Expectation>) -> Option<Expectation>
    decreases expectations.len(),
{
    if expectations.len() == 0 {
        None
    } else if expectations[0] != Expectation::Sync {
        Some(expectations[0])
    } else {
        next_execution(expectations.drop_first())
    }
}

proof fn next_execution_stays(expectations: Seq<Expectation>, e: Expectation)
    requires
        next_execution(expectations) is Some,
    ensures
        next_execution(expectations.push(e)) == next_execution(expectations),
    decreases expectations.len(),
{
    if expectations.len() > 0 && expectations[0] == Expectation::Sync {
        next_execution_stays(expectations.drop_first(), e);
        assert(expectations.push(e).drop_first() =~= expectations.drop_first().push(e));
    }
}

/// Each event is one by which an operation goes on: something was written or read, or a handler has
/// answered.
pub open spec fn goes_on(events: Seq<Event>) -> bool {
    forall|i: int|
        0 <= i < events.len() ==> (#[trigger] events[i] is Sent || events[i] is Received
            || events[i] is CalledBack)
}

proof fn goes_on_before(events: Seq<Event>)
    requires
        goes_on(events),
        events.len() > 0,
    ensures
        goes_on(events.drop_last()),
        events.last() is Sent || events.last() is Received || events.last() is CalledBack,
{
    assert forall|i: int| 0 <= i < events.drop_last().len() implies (
    #[trigger] events.drop_last()[i] is Sent || events.drop_last()[i] is Received
        || events.drop_last()[i] is CalledBack) by {
        assert(events[i] == events.drop_last()[i]);
    }
    assert(events[events.len() - 1] == events.last());
}

/// A claim of a prepared statement with these columns is going on, or is over.
spec fn by_statement<H>(v: PipelineView<H>, payload: Seq<u8>) -> bool {
    match v.phase {
        PhaseView::Sending(purpose) => purpose == Purpose::Claim(Columns::Cached) && v.columns
            == payload && next_execution(v.expectations) == Some(Expectation::BindExecute),
        PhaseView::CatchUp(source) => source == Columns::Cached && v.columns == payload
            && next_execution(v.expectations) == Some(Expectation::BindExecute),
        PhaseView::AwaitBind(source) => source == Columns::Cached && v.columns == payload,
        PhaseView::Rows(source) => source == Columns::Cached && v.columns == payload,
        PhaseView::InRow(source) => source == Columns::Cached && v.columns == payload,
        PhaseView::InEnd => true,
        PhaseView::Settle(_) => true,
        PhaseView::Idle => true,
        _ => false,
    }
}

proof fn claim_is_by_statement<H>(v: PipelineView<H>, seq: nat, payload: Seq<u8>)
    requires
        v.phase is Idle,
        next_execution(v.expectations) == Some(Expectation::BindExecute),
    ensures
        by_statement(v.after(Event::Claim { seq, cached: Some(payload) }), payload),
{
    next_execution_stays(v.expectations, Expectation::Sync);
}

proof fn stays_by_statement<H>(v: PipelineView<H>, payload: Seq<u8>, event: Event)
    requires
        by_statement(v, payload),
        v.possible(event),
        event is Sent || event is Received || event is CalledBack,
    ensures
        by_statement(v.after(event), payload),
{
}

proof fn course_is_by_statement<H>(
    v: PipelineView<H>,
    seq: nat,
    payload: Seq<u8>,
    events: Seq<Event>,
)
    requires
        v.phase is Idle,
        next_execution(v.expectations) == Some(Expectation::BindExecute),
        goes_on(events),
        v.after(Event::Claim { seq, cached: Some(payload) }).regular(events),
    ensures
        by_statement(
            v.after(Event::Claim { seq, cached: Some(payload) }).course(events),
            payload,
        ),
    decreases events.len(),
{
    claim_is_by_statement(v, seq, payload);
    if events.len() > 0 {
        goes_on_before(events);
        course_is_by_statement(v, seq, payload, events.drop_last());
        stays_by_statement(
            v.after(Event::Claim { seq, cached: Some(payload) }).course(events.drop_last()),
            payload,
            events.last(),
        );
    }
}

/// The rows of a claim go by the columns of the claimed ticket's own statement, whatever was claimed
/// before and whatever columns an earlier claim has left. From any state between two operations in
/// which a prepared execution is the next one, and however the claim goes on, with what is sent
/// first, the answers to Syncs, messages of the server's own accord and rows before: a row that comes
/// then is handed out with the columns that the statement knows, and its own values.
pub proof fn rows_go_by_their_statement<H>(
    v: PipelineView<H>,
    seq: nat,
    payload: Seq<u8>,
    events: Seq<Event>,
    row: Message,
)
    requires
        v.phase is Idle,
        next_execution(v.expectations) == Some(Expectation::BindExecute),
        goes_on(events),
        v.after(Event::Claim { seq, cached: Some(payload) }).regular(events),
        v.after(Event::Claim { seq, cached: Some(payload) }).course(events).phase is Rows,
        row.type_byte == 68,
        columns_of(payload) is Ok,
        row_of(row.payload@) is Ok,
    ensures
        v.after(Event::Claim { seq, cached: Some(payload) }).course(events).received(Ok(row)).1
            == NextView::Row(columns_of(payload)->Ok_0, row_of(row.payload@)->Ok_0),
{
    course_is_by_statement(v, seq, payload, events);
}

/// A claim of a prepared statement comes to its rows: with nothing to send, with no answer to a Sync
/// owed before, in a pipeline that is not aborted, it waits for BindComplete and for the rows next,
/// and a row is handed out with the columns of the statement.
pub proof fn prepared_claim_comes_to_its_rows<H>(
    v: PipelineView<H>,
    payload: Seq<u8>,
    bound: Message,
    row: Message,
)
    requires
        v.phase is Idle,
        v.conn.ready(),
        v.conn.write_buffer.len() == 0,
        !v.aborted,
        v.expectations.len() > 0,
        v.expectations[0] == Expectation::BindExecute,
        bound.type_byte == 50,
        bound.payload@.len() == 0,
        row.type_byte == 68,
        columns_of(payload) is Ok,
        row_of(row.payload@) is Ok,
    ensures
        ({
            let (a, first) = v.claim(v.claim_seq, Some(payload));
            let (b, second) = a.received(Ok(bound));
            let (c, third) = b.received(Ok(row));
            &&& first == NextView::Read
            &&& second == NextView::Read
            &&& third == NextView::Row(columns_of(payload)->Ok_0, row_of(row.payload@)->Ok_0)
            &&& c.claim_seq == v.claim_seq
            &&& c.expectations == v.expectations.drop_first()
        }),
{
}

/// The server has announced these columns for the claim that is going on, or the claim is over.
spec fn as_announced<H>(v: PipelineView<H>, payload: Seq<u8>) -> bool {
    match v.phase {
        PhaseView::Rows(source) => source == Columns::Announced && v.columns == payload,
        PhaseView::InRow(source) => source == Columns::Announced && v.columns == payload,
        PhaseView::InEnd => true,
        PhaseView::Settle(_) => true,
        PhaseView::Idle => true,
        _ => false,
    }
}

proof fn course_is_as_announced<H>(v: PipelineView<H>, announced: Message, events: Seq<Event>)
    requires
        v.phase is AwaitColumns,
        announced.type_byte == 84,
        goes_on(events),
        v.received(Ok(announced)).0.regular(events),
    ensures
        as_announced(v.received(Ok(announced)).0.course(events), announced.payload@),
    decreases events.len(),
{
    if events.len() > 0 {
        goes_on_before(events);
        course_is_as_announced(v, announced, events.drop_last());
    }
}

/// The rows of SQL text go by the columns that the server has announced for this execution, however
/// the claim goes on.
pub proof fn rows_go_by_what_was_announced<H>(
    v: PipelineView<H>,
    announced: Message,
    events: Seq<Event>,
    row: Message,
)
    requires
        v.phase is AwaitColumns,
        announced.type_byte == 84,
        goes_on(events),
        v.received(Ok(announced)).0.regular(events),
        v.received(Ok(announced)).0.course(events).phase is Rows,
        row.type_byte == 68,
        columns_of(announced.payload@) is Ok,
        row_of(row.payload@) is Ok,
    ensures
        v.received(Ok(announced)).0.course(events).received(Ok(row)).1 == NextView::Row(
            columns_of(announced.payload@)->Ok_0,
            row_of(row.payload@)->Ok_0,
        ),
{
    course_is_as_announced(v, announced, events);
}

/// A claim of SQL text comes to its rows: with nothing to send, with no answer to a Sync owed before,
/// in a pipeline that is not aborted, it waits for ParseComplete, BindComplete, the columns and the
/// rows, whatever its ticket knows and whatever columns are left from before.
pub proof fn sql_claim_comes_to_its_rows<H>(
    v: PipelineView<H>,
    cached: Option<Seq<u8>>,
    parsed: Message,
    bound: Message,
    announced: Message,
    row: Message,
)
    requires
        v.phase is Idle,
        v.conn.ready(),
        v.conn.write_buffer.len() == 0,
        !v.aborted,
        v.expectations.len() > 0,
        v.expectations[0] == Expectation::ParseBindExecute,
        parsed.type_byte == 49 && parsed.payload@.len() == 0,
        bound.type_byte == 50 && bound.payload@.len() == 0,
        announced.type_byte == 84,
        row.type_byte == 68,
        columns_of(announced.payload@) is Ok,
        row_of(row.payload@) is Ok,
    ensures
        ({
            let (a, first) = v.claim(v.claim_seq, cached);
            let (b, second) = a.received(Ok(parsed));
            let (c, third) = b.received(Ok(bound));
            let (d, fourth) = c.received(Ok(announced));
            let (e, fifth) = d.received(Ok(row));
            &&& first == NextView::Read
            &&& second == NextView::Read
            &&& third == NextView::Read
            &&& fourth == NextView::Read
            &&& fifth == NextView::Row(
                columns_of(announced.payload@)->Ok_0,
                row_of(row.payload@)->Ok_0,
            )
            &&& e.claim_seq == v.claim_seq
            &&& e.expectations == v.expectations.drop_first()
        }),
{
}

/// The pipeline has taken in a message.
pub open spec fn heard_from<H>(v: PipelineView<H>, m: Message) -> PipelineView<H> {
    PipelineView {
        conn: ConnView { type_byte: m.type_byte, read_buffer: m.payload@, ..v.conn },
        ..v
    }
}

/// The operation is over with this outcome, its exchange is not: the connection is left unusable.
pub open spec fn broken_off<H>(
    v: PipelineView<H>,
    after: (PipelineView<H>, NextView),
    outcome: Result<(), ErrorView>,
) -> bool {
    after == (PipelineView { phase: PhaseView::Idle, ..v }, NextView::Done(outcome))
}

/// A row for which no columns are known is refused, and so are columns and rows that cannot be
/// decoded: the claim ends with the error, and its exchange stays unfinished.
pub proof fn rows_without_columns_are_refused<H>(v: PipelineView<H>, source: Columns, m: Message)
    requires
        v.phase == PhaseView::Rows(source),
        m.type_byte == 68,
    ensures
        ({
            let w = heard_from(v, m);
            &&& source == Columns::Absent ==> broken_off(
                w,
                v.received(Ok(m)),
                Err(ErrorView::LibraryBug("received DataRow but no RowDescription"@)),
            )
            &&& source == Columns::Uncached ==> broken_off(
                w,
                v.received(Ok(m)),
                Err(ErrorView::LibraryBug("received DataRow but no RowDescription cached"@)),
            )
            &&& (source == Columns::Cached || source == Columns::Announced) ==> match (
                columns_of(v.columns),
                row_of(m.payload@),
            ) {
                (Err(e), _) => broken_off(w, v.received(Ok(m)), Err(e)),
                (Ok(_), Err(e)) => broken_off(w, v.received(Ok(m)), Err(e)),
                (Ok(columns), Ok(row)) => v.received(Ok(m)) == (
                    PipelineView { phase: PhaseView::InRow(source), ..w },
                    NextView::Row(columns, row),
                ),
            }
        }),
{
}

/// After a row that the handler has taken, the claim waits for the next one. An error of the handler
/// is the outcome of the claim and leaves its exchange unfinished.
pub proof fn handler_decides<H>(v: PipelineView<H>, source: Columns, answer: Result<(), Error>)
    requires
        v.phase == PhaseView::InRow(source) || v.phase is InEnd,
    ensures
        match answer {
            Err(e) => broken_off(v, v.called_back(answer), Err(e@)),
            Ok(()) => v.phase is InRow ==> v.called_back(answer) == (
                PipelineView { phase: PhaseView::Rows(source), ..v },
                NextView::Read,
            ),
        },
{
}

/// The claim is over with this outcome: the next execution is the one to claim, and the answers to
/// the Syncs that come next in the queue are taken first.
pub open spec fn claim_ends<H>(
    v: PipelineView<H>,
    after: (PipelineView<H>, NextView),
    outcome: Result<(), ErrorView>,
) -> bool {
    if v.expectations.len() > 0 && v.expectations[0] == Expectation::Sync {
        after == (
            PipelineView {
                claim_seq: v.claim_seq + 1,
                expectations: v.expectations.drop_first(),
                phase: PhaseView::Settle(outcome),
                ..v
            },
            NextView::Read,
        )
    } else {
        after == (
            PipelineView {
                conn: ConnView { in_progress: false, ..v.conn },
                claim_seq: v.claim_seq + 1,
                phase: PhaseView::Idle,
                ..v
            },
            NextView::Done(outcome),
        )
    }
}

/// The end of a command is told to the handler with its tag, and a claim succeeds once the handler
/// has taken it; an empty query has no end to tell.
pub proof fn commands_end<H>(v: PipelineView<H>, m: Message)
    requires
        v.phase is Rows,
    ensures
        m.type_byte == 67 ==> match complete_of(m.payload@) {
            Ok(tag) => {
                let (w, next) = v.received(Ok(m));
                &&& next == NextView::End(tag)
                &&& w == (PipelineView { phase: PhaseView::InEnd, ..heard_from(v, m) })
                &&& claim_ends(w, w.called_back(Ok(())), Ok(()))
            },
            Err(e) => broken_off(heard_from(v, m), v.received(Ok(m)), Err(e)),
        },
        m.type_byte == 73 && m.payload@.len() == 0 ==> claim_ends(
            heard_from(v, m),
            v.received(Ok(m)),
            Ok(()),
        ),
{
}

/// A claim that has its outcome takes ReadyForQuery for each Sync that comes next in the queue, with
/// the transaction status it brings, and hands the outcome out after the last of them.
pub proof fn outcome_waits_for_its_syncs<H>(
    v: PipelineView<H>,
    outcome: Result<(), ErrorView>,
    m: Message,
)
    requires
        v.phase == PhaseView::Settle(outcome),
        m.type_byte == 90,
        ready_of(m.payload@) is Ok,
    ensures
        ({
            let (w, next) = v.received(Ok(m));
            &&& w.conn.transaction_status == ready_of(m.payload@)->Ok_0
            &&& !w.aborted
            &&& w.conn.scope_pending == (v.expectations.len() > 0)
            &&& w.claim_seq == v.claim_seq && w.queue_seq == v.queue_seq
            &&& w.conn.broken == v.conn.broken
            &&& if v.expectations.len() > 0 && v.expectations[0] == Expectation::Sync {
                next == NextView::Read && w.phase == PhaseView::Settle(outcome) && w.expectations
                    == v.expectations.drop_first() && w.conn.in_progress == v.conn.in_progress
            } else {
                next == NextView::Done(outcome) && w.phase is Idle && w.expectations
                    == v.expectations && !w.conn.in_progress
            }
        }),
{
}

/// What does not belong to a claim ends it, and leaves its exchange unfinished: each phase takes its
/// own message, one that has no payload only without one, and nothing else.
pub proof fn claims_take_their_own_messages<H>(v: PipelineView<H>, m: Message)
    requires
        v.claiming(),
        v.reading(),
        !(v.phase is CatchUp),
        !asynchronous(m.type_byte),
        m.type_byte != 69,
    ensures
        ({
            let w = heard_from(v, m);
            let over = v.received(Ok(m)).1 is Done && v.received(Ok(m)).0 == (PipelineView {
                phase: PhaseView::Idle,
                ..w
            }) && (v.received(Ok(m)).1 matches NextView::Done(r) && r is Err);
            let empty = m.payload@.len() == 0;
            match v.phase {
                PhaseView::AwaitParse => if m.type_byte == 49 && empty {
                    v.received(Ok(m)) == (
                        PipelineView { phase: PhaseView::AwaitBind(Columns::Announced), ..w },
                        NextView::Read,
                    )
                } else {
                    over
                },
                PhaseView::AwaitBind(source) => if m.type_byte == 50 && empty {
                    v.received(Ok(m)) == (
                        PipelineView {
                            phase: if source == Columns::Announced {
                                PhaseView::AwaitColumns
                            } else {
                                PhaseView::Rows(source)
                            },
                            ..w
                        },
                        NextView::Read,
                    )
                } else {
                    over
                },
                PhaseView::AwaitColumns => if m.type_byte == 84 {
                    v.received(Ok(m)) == (
                        PipelineView {
                            columns: m.payload@,
                            phase: PhaseView::Rows(Columns::Announced),
                            ..w
                        },
                        NextView::Read,
                    )
                } else if m.type_byte == 110 && empty {
                    v.received(Ok(m)) == (
                        PipelineView { phase: PhaseView::Rows(Columns::Absent), ..w },
                        NextView::Read,
                    )
                } else {
                    over
                },
                _ => m.type_byte != 68 && m.type_byte != 67 && !(m.type_byte == 73 && empty)
                    ==> over,
            }
        }),
{
}

/// A server error in place of an answer is the outcome of the claim. Where the session goes on, the
/// pipeline is aborted up to the next Sync and the claim is over; where it does not, the connection
/// has failed. An error that cannot be decoded leaves the exchange unfinished.
pub proof fn server_error_ends_the_claim<H>(v: PipelineView<H>, m: Message)
    requires
        v.claiming(),
        v.reading(),
        !(v.phase is CatchUp),
        !v.conn.broken,
        m.type_byte == 69,
    ensures
        ({
            let w = heard_from(v, m);
            match error_of(m.payload@) {
                Err(e) => broken_off(w, v.received(Ok(m)), Err(e)),
                Ok(fields) => if ends_session(fields) {
                    broken_off(
                        PipelineView { conn: ConnView { broken: true, ..w.conn }, ..w },
                        v.received(Ok(m)),
                        Err(ErrorView::Server(fields)),
                    )
                } else {
                    claim_ends(
                        PipelineView { aborted: true, ..w },
                        v.received(Ok(m)),
                        Err(ErrorView::Server(fields)),
                    )
                },
            }
        }),
{
}

/// A claim in an aborted pipeline, with nothing to send and no answer to a Sync owed before, reads
/// nothing: the server has skipped the execution. It is over with an error of its own.
pub proof fn skipped_executions_are_refused<H>(v: PipelineView<H>, cached: Option<Seq<u8>>)
    requires
        v.phase is Idle,
        v.conn.ready(),
        v.conn.write_buffer.len() == 0,
        v.aborted,
        v.expectations.len() > 0,
        v.expectations[0] != Expectation::Sync,
    ensures
        claim_ends(
            PipelineView {
                conn: ConnView { in_progress: true, ..v.conn },
                columns: v.claim(v.claim_seq, cached).0.columns,
                expectations: v.expectations.drop_first(),
                ..v
            },
            v.claim(v.claim_seq, cached),
            Err(ErrorView::LibraryBug("pipeline aborted due to earlier error"@)),
        ),
{
}

/// What was buffered goes out whole, and behind it a Sync or a Flush, and the answer to the Sync is
/// owed from then on. Once it was written, the operation is over and the buffer is empty; nothing
/// else has changed. A write that fails is the outcome, and leaves the connection unusable.
pub proof fn everything_is_sent<H>(v: PipelineView<H>, e: Error)
    requires
        v.phase is Idle,
        v.conn.ready(),
    ensures
        ({
            let n = v.conn.write_buffer.len() as int;
            let (w, next) = v.sync();
            let out = w.conn.write_buffer;
            &&& next == NextView::Write
            &&& out.len() >= n && out.take(n) == v.conn.write_buffer
            &&& asks(out.skip(n), seq![Request::Sync])
            &&& !w.conn.ready()
            &&& w.sent(Ok(())) == (
                PipelineView {
                    conn: ConnView { write_buffer: Seq::empty(), scope_pending: true, ..v.conn },
                    expectations: v.expectations.push(Expectation::Sync),
                    ..v
                },
                NextView::Done(Ok(())),
            )
            &&& w.sent(Err(e)).1 == NextView::Done(Err(e@))
            &&& !w.sent(Err(e)).0.conn.ready()
        }),
        ({
            let n = v.conn.write_buffer.len() as int;
            let (w, next) = v.flush();
            let out = w.conn.write_buffer;
            if n == 0 {
                w == v && next == NextView::Done(Ok(()))
            } else {
                &&& next == NextView::Write
                &&& out.len() >= n && out.take(n) == v.conn.write_buffer
                &&& asks(out.skip(n), seq![Request::Flush])
                &&& !w.conn.ready()
                &&& w.sent(Ok(())) == (
                    PipelineView {
                        conn: ConnView {
                            write_buffer: Seq::empty(),
                            scope_pending: true,
                            ..v.conn
                        },
                        ..v
                    },
                    NextView::Done(Ok(())),
                )
                &&& w.sent(Err(e)).1 == NextView::Done(Err(e@))
                &&& !w.sent(Err(e)).0.conn.ready()
            }
        }),
{
    bare_requests_are_read();
    let b = v.conn.write_buffer;
    let n = b.len() as int;
    assert((b + sync_frame()).take(n) =~= b);
    assert((b + sync_frame()).skip(n) =~= sync_frame());
    assert((b + flush_frame()).take(n) =~= b);
    assert((b + flush_frame()).skip(n) =~= flush_frame());
}

/// A claim or a cleanup with something to send is the same as a sync and the claim or the cleanup
/// after it: it sends the same bytes, and goes on the same way.
pub proof fn claims_and_cleanups_sync_first<H>(
    v: PipelineView<H>,
    cached: Option<Seq<u8>>,
)
    requires
        v.phase is Idle,
        v.conn.ready(),
        v.conn.write_buffer.len() > 0,
    ensures
        ({
            let synced = v.sync().0.sent(Ok(())).0;
            let claiming = v.claim(v.claim_seq, cached);
            &&& claiming.1 == NextView::Write
            &&& claiming.0.conn == v.sync().0.conn
            &&& claiming.0.sent(Ok(())) == synced.claim(v.claim_seq, cached)
            &&& v.expectations.len() > 0 || v.conn.scope_pending ==> {
                let cleaning = v.cleanup();
                &&& cleaning.1 == NextView::Write
                &&& cleaning.0.conn == v.sync().0.conn
                &&& cleaning.0.sent(Ok(())) == synced.cleanup()
            }
        }),
{
}

/// Nothing goes on with a connection that has failed or is in the middle of an exchange: nothing is
/// sent or claimed, and nothing changes. A pipeline of which nothing was sent or queued is cleaned up
/// by dropping its buffer.
pub proof fn nothing_goes_on_after_a_failure<H>(
    v: PipelineView<H>,
    seq: nat,
    cached: Option<Seq<u8>>,
)
    requires
        v.phase is Idle,
    ensures
        v.conn.broken || v.conn.in_progress ==> v.sync() == (
            v,
            NextView::Done(Err(ErrorView::ConnectionBroken)),
        ) && v.flush() == v.sync() && v.claim(seq, cached) == v.sync() && v.cleanup() == (
            v,
            NextView::Done(Ok(())),
        ),
        v.conn.ready() && v.expectations.len() == 0 && !v.conn.scope_pending ==> v.cleanup() == (
            PipelineView { conn: ConnView { write_buffer: Seq::empty(), ..v.conn }, ..v },
            NextView::Done(Ok(())),
        ),
{
}

/// A message that cannot be read is the outcome of the operation, but for a cleanup, which has none,
/// and leaves its exchange unfinished.
pub proof fn failed_read_is_the_outcome<H>(v: PipelineView<H>, e: Error)
    requires
        v.reading(),
    ensures
        broken_off(
            v,
            v.received(Err(e)),
            if v.phase is DrainExec || v.phase is DrainSync {
                Ok(())
            } else {
                Err(e@)
            },
        ),
{
}

/// While ReadyForQuery is awaited, a server error is the outcome of the operation, but for a cleanup,
/// and one that ends the session fails the connection; all other messages are read over.
pub proof fn ready_is_awaited<H>(v: PipelineView<H>, m: Message)
    requires
        v.phase is CatchUp || v.phase is Settle || v.phase is DrainSync,
        !asynchronous(m.type_byte),
        m.type_byte != 90,
    ensures
        ({
            let w = heard_from(v, m);
            if m.type_byte == 69 {
                let e = match error_of(m.payload@) {
                    Ok(fields) => ErrorView::Server(fields),
                    Err(e) => e,
                };
                broken_off(
                    PipelineView {
                        conn: ConnView {
                            broken: v.conn.broken || (error_of(m.payload@) matches Ok(fields)
                                && ends_session(fields)),
                            ..w.conn
                        },
                        ..w
                    },
                    v.received(Ok(m)),
                    if v.phase is DrainSync {
                        Ok(())
                    } else {
                        Err(e)
                    },
                )
            } else {
                v.received(Ok(m)) == (w, NextView::Read)
            }
        }),
{
}

/// The rest of a queue from its first Sync on is just that: what is left out in front holds no Sync.
pub proof fn nothing_but_executions_is_skipped(expectations: Seq<Expectation>) -> (k: int)
    ensures
        0 <= k <= expectations.len(),
        from_first_sync(expectations) == expectations.skip(k),
        forall|i: int| 0 <= i < k ==> #[trigger] expectations[i] != Expectation::Sync,
        k < expectations.len() ==> expectations[k] == Expectation::Sync,
    decreases expectations.len(),
{
    if expectations.len() == 0 || expectations[0] == Expectation::Sync {
        assert(expectations.skip(0) =~= expectations);
        0
    } else {
        let k = nothing_but_executions_is_skipped(expectations.drop_first()) + 1;
        assert(expectations.drop_first().skip(k - 1) =~= expectations.skip(k));
        assert forall|i: int| 0 <= i < k implies #[trigger] expectations[i] != Expectation::Sync by {
            if i > 0 {
                assert(expectations[i] == expectations.drop_first()[i - 1]);
            }
        }
        k
    }
}

/// A cleanup discards the answers to an execution message by message, up to the end of its command or
/// an error; then it goes on with the next response that is owed, in order. After an error these are
/// the ones from the next Sync on.
pub proof fn cleanup_goes_through_the_queue<H>(v: PipelineView<H>, m: Message)
    requires
        v.phase is DrainExec,
        !asynchronous(m.type_byte),
        v.expectations.len() > 0,
    ensures
        ({
            let w = heard_from(v, m);
            let next_one = (
                PipelineView {
                    expectations: v.expectations.drop_first(),
                    phase: if v.expectations[0] == Expectation::Sync {
                        PhaseView::DrainSync
                    } else {
                        PhaseView::DrainExec
                    },
                    ..w
                },
                NextView::Read,
            );
            &&& (m.type_byte == 49 || m.type_byte == 50 || m.type_byte == 84 || m.type_byte == 110
                || m.type_byte == 68) ==> v.received(Ok(m)) == (w, NextView::Read)
            &&& m.type_byte == 67 && complete_of(m.payload@) is Ok && !v.aborted ==> v.received(
                Ok(m),
            ) == next_one
            &&& m.type_byte == 73 && m.payload@.len() == 0 && !v.aborted ==> v.received(Ok(m))
                == next_one
            &&& m.type_byte == 69 ==> match error_of(m.payload@) {
                Ok(fields) => if ends_session(fields) {
                    broken_off(
                        PipelineView { conn: ConnView { broken: true, ..w.conn }, ..w },
                        v.received(Ok(m)),
                        Ok(()),
                    )
                } else {
                    v.expectations[0] == Expectation::Sync ==> v.received(Ok(m)) == (
                        PipelineView {
                            expectations: v.expectations.drop_first(),
                            aborted: true,
                            phase: PhaseView::DrainSync,
                            ..w
                        },
                        NextView::Read,
                    )
                },
                Err(_) => broken_off(w, v.received(Ok(m)), Ok(())),
            }
        }),
{
}

/// A pipeline begins with nothing queued, nothing claimed and nothing owed.
pub proof fn pipelines_begin_empty<H>(conn: ConnView<H>)
    ensures
        ({
            let v = PipelineView::fresh(conn);
            &&& v.conn == conn
            &&& v.queue_seq == 0 && v.claim_seq == 0
            &&& v.expectations.len() == 0
            &&& !v.aborted
            &&& v.phase is Idle
        }),
{
}

/// A claim of a prepared statement of which no columns are known goes on to its end, but a row for it
/// is refused.
pub proof fn prepared_claim_without_columns<H>(v: PipelineView<H>, bound: Message, row: Message)
    requires
        v.phase is Idle,
        v.conn.ready(),
        v.conn.write_buffer.len() == 0,
        !v.aborted,
        v.expectations.len() > 0,
        v.expectations[0] == Expectation::BindExecute,
        bound.type_byte == 50,
        bound.payload@.len() == 0,
        row.type_byte == 68,
    ensures
        ({
            let (a, first) = v.claim(v.claim_seq, None);
            let (b, second) = a.received(Ok(bound));
            let (c, third) = b.received(Ok(row));
            &&& first == NextView::Read
            &&& second == NextView::Read
            &&& b.phase is Rows
            &&& third matches NextView::Done(r) && r is Err
        }),
{
}

/// A claim for which the queue holds no execution is refused, and its exchange stays unfinished.
pub proof fn claims_need_an_execution<H>(v: PipelineView<H>, cached: Option<Seq<u8>>)
    requires
        v.phase is Idle,
        v.conn.ready(),
        v.conn.write_buffer.len() == 0,
        !v.aborted,
        v.expectations.len() == 0,
    ensures
        v.claim(v.claim_seq, cached).1 == NextView::Done(
            Err(ErrorView::LibraryBug("no expectation in queue"@)),
        ),
        !v.claim(v.claim_seq, cached).0.conn.ready(),
        v.claim(v.claim_seq, cached).0.claim_seq == v.claim_seq,
{
}

/// A claim out of order is told which execution is the next one, and which one it was for.
pub proof fn claims_out_of_order_are_told(expected: nat, got: nat)
    ensures
        exists|first: Seq<char>, second: Seq<char>|
            #![trigger number_in(first), number_in(second)]
            all_digits(first) && all_digits(second) && number_in(first) == expected && number_in(
                second,
            ) == got && out_of_order(expected, got) == ErrorView::InvalidUsage(
                "claim out of order: expected seq "@ + first + ", got "@ + second,
            ),
{
    decimal_reads_back(expected);
    decimal_reads_back(got);
    assert(number_in(decimal(expected)) == expected && number_in(decimal(got)) == got);
}

/// A cleanup for which everything was sent takes the first response that is owed. ReadyForQuery for a
/// Sync ends the aborted state, brings the transaction status, and lets the cleanup go on with the
/// next response. After the last one it is over, and the pipeline counts from the beginning.
pub proof fn cleanup_takes_what_is_owed_in_order<H>(v: PipelineView<H>, m: Message)
    requires
        m.type_byte == 90,
        ready_of(m.payload@) is Ok,
    ensures
        v.phase is Idle && v.conn.ready() && v.conn.write_buffer.len() == 0 && !v.aborted
            && v.expectations.len() > 0 && v.expectations.last() == Expectation::Sync
            ==> v.cleanup() == (
            PipelineView {
                conn: ConnView { in_progress: true, ..v.conn },
                expectations: v.expectations.drop_first(),
                phase: if v.expectations[0] == Expectation::Sync {
                    PhaseView::DrainSync
                } else {
                    PhaseView::DrainExec
                },
                ..v
            },
            NextView::Read,
        ),
        v.phase is DrainSync ==> ({
            let (w, next) = v.received(Ok(m));
            &&& w.conn.transaction_status == ready_of(m.payload@)->Ok_0
            &&& !w.aborted
            &&& w.conn.broken == v.conn.broken
            &&& if v.expectations.len() > 0 {
                &&& next == NextView::Read
                &&& w.conn.scope_pending
                &&& w.conn.in_progress == v.conn.in_progress
                &&& w.expectations == v.expectations.drop_first()
                &&& w.queue_seq == v.queue_seq && w.claim_seq == v.claim_seq
                &&& w.phase == if v.expectations[0] == Expectation::Sync {
                    PhaseView::DrainSync
                } else {
                    PhaseView::DrainExec
                }
            } else {
                &&& next == NextView::Done(Ok(()))
                &&& !w.conn.scope_pending && !w.conn.in_progress
                &&& w.queue_seq == 0 && w.claim_seq == 0
                &&& w.phase is Idle
            }
        }),
{
}

/// After an error that does not end the session a cleanup skips the executions up to the next Sync,
/// and only those, and waits for the answer to that Sync.
pub proof fn cleanup_skips_to_the_next_sync<H>(v: PipelineView<H>, m: Message, k: int)
    requires
        v.phase is DrainExec,
        m.type_byte == 69,
        error_of(m.payload@) matches Ok(fields) && !ends_session(fields),
        0 <= k < v.expectations.len(),
        v.expectations[k] == Expectation::Sync,
        forall|i: int| 0 <= i < k ==> #[trigger] v.expectations[i] != Expectation::Sync,
    ensures
        v.received(Ok(m)) == (
            PipelineView {
                expectations: v.expectations.skip(k + 1),
                aborted: true,
                phase: PhaseView::DrainSync,
                ..heard_from(v, m)
            },
            NextView::Read,
        ),
{
    let j = nothing_but_executions_is_skipped(v.expectations);
    assert(j == k) by {
        if j < k {
            assert(v.expectations[j] == Expectation::Sync);
        }
    }
    assert(v.expectations.skip(k).drop_first() =~= v.expectations.skip(k + 1));
}

/// The steps of a [`Pipeline`] over a claim of a prepared statement: with nothing to send and its
/// execution next, it waits for BindComplete and then hands out each row with the columns that the
/// ticket's statement knows, whatever columns the pipeline was left with.
pub proof fn claimed_rows_have_their_columns<'a, 't, H>(
    p: &mut Pipeline<'a, H>,
    ticket: Ticket<'t>,
    first: Next,
    q: &mut Pipeline<'a, H>,
    bound: Message,
    second: Next,
    s: &mut Pipeline<'a, H>,
    row: Message,
    third: Next,
)
    requires
        call_ensures(Pipeline::<'a, H>::claim, (p, ticket), first),
        call_ensures(Pipeline::<'a, H>::received, (q, Ok::<Message, Error>(bound)), second),
        call_ensures(Pipeline::<'a, H>::received, (s, Ok::<Message, Error>(row)), third),
        final(p)@ == old(q)@,
        final(q)@ == old(s)@,
        old(p)@.phase is Idle,
        old(p)@.conn.ready(),
        old(p)@.conn.write_buffer.len() == 0,
        !old(p)@.aborted,
        old(p)@.expectations.len() > 0,
        old(p)@.expectations[0] == Expectation::BindExecute,
        ticket.seq() == old(p)@.claim_seq,
        ticket.cached() matches Some(payload) && columns_of(payload) is Ok,
        bound.type_byte == 50,
        bound.payload@.len() == 0,
        row.type_byte == 68,
        row_of(row.payload@) is Ok,
    ensures
        first@ == NextView::Read,
        second@ == NextView::Read,
        third@ == NextView::Row(
            columns_of(ticket.cached()->Some_0)->Ok_0,
            row_of(row.payload@)->Ok_0,
        ),
{
}

/// What [`Pipeline::sync`] and [`Pipeline::flush`] write is all that was queued, with a Sync or a Flush
/// behind it, and what [`Pipeline::abandon`] gives back has failed if anything was owed.
pub proof fn pipelines_send_everything<'a, H>(
    p: &mut Pipeline<'a, H>,
    synced: Next,
    q: &mut Pipeline<'a, H>,
    flushed: Next,
    given_up: Pipeline<'a, H>,
)
    requires
        call_ensures(Pipeline::<'a, H>::sync, (p,), synced),
        call_ensures(Pipeline::<'a, H>::flush, (q,), flushed),
        call_ensures(Pipeline::<'a, H>::abandon, (given_up,), ()),
        old(p)@.conn.ready(),
        old(q)@.conn.ready(),
        old(q)@.conn.write_buffer.len() > 0,
    ensures
        synced@ == NextView::Write,
        flushed@ == NextView::Write,
        ({
            let n = old(p)@.conn.write_buffer.len() as int;
            let out = final(p)@.conn.write_buffer;
            out.len() >= n && out.take(n) == old(p)@.conn.write_buffer && asks(
                out.skip(n),
                seq![Request::Sync],
            )
        }),
        ({
            let n = old(q)@.conn.write_buffer.len() as int;
            let out = final(q)@.conn.write_buffer;
            out.len() >= n && out.take(n) == old(q)@.conn.write_buffer && asks(
                out.skip(n),
                seq![Request::Flush],
            )
        }),
        final(given_up.lent())@.broken == (given_up@.conn.broken || given_up@.conn.scope_pending),
{
    bare_requests_are_read();
    let b = old(p)@.conn.write_buffer;
    assert((b + sync_frame()).take(b.len() as int) =~= b);
    assert((b + sync_frame()).skip(b.len() as int) =~= sync_frame());
    let c = old(q)@.conn.write_buffer;
    assert((c + flush_frame()).take(c.len() as int) =~= c);
    assert((c + flush_frame()).skip(c.len() as int) =~= flush_frame());
}

/// A claim that finds the answer to a Sync owed first waits for it, and goes on with it as a claim in
/// the pipeline that is left: one that has the answer, is not aborted and owes that Sync no more.
pub proof fn claim_goes_on_after_a_sync<H>(
    v: PipelineView<H>,
    cached: Option<Seq<u8>>,
    m: Message,
)
    requires
        v.phase is Idle,
        v.conn.ready(),
        v.conn.write_buffer.len() == 0,
        v.expectations.len() > 0,
        v.expectations[0] == Expectation::Sync,
        m.type_byte == 90,
        ready_of(m.payload@) is Ok,
    ensures
        ({
            let (w, next) = v.claim(v.claim_seq, cached);
            let answered = PipelineView {
                conn: ConnView {
                    type_byte: m.type_byte,
                    read_buffer: m.payload@,
                    transaction_status: ready_of(m.payload@)->Ok_0,
                    scope_pending: v.expectations.len() > 1,
                    ..v.conn
                },
                expectations: v.expectations.drop_first(),
                aborted: false,
                ..v
            };
            &&& next == NextView::Read
            &&& w.claim_seq == v.claim_seq
            &&& w.received(Ok(m)) == answered.claim(v.claim_seq, cached)
        }),
{
}

/// A cleanup of which something is owed sends a Sync, unless everything was sent and the last thing
/// owed is the answer to a Sync, and goes on as the cleanup after that Sync. A write that fails ends
/// it, and leaves the connection unusable; so it does with a claim, which has the failure for its
/// outcome.
pub proof fn cleanup_syncs_where_it_must<H>(
    v: PipelineView<H>,
    cached: Option<Seq<u8>>,
    e: Error,
)
    requires
        v.phase is Idle,
        v.conn.ready(),
    ensures
        (v.expectations.len() > 0 || v.conn.scope_pending) && (v.conn.write_buffer.len() > 0
            || v.expectations.len() == 0 || v.expectations.last() != Expectation::Sync) ==> ({
            let cleaning = v.cleanup();
            &&& cleaning.1 == NextView::Write
            &&& cleaning.0.conn == v.sync().0.conn
            &&& cleaning.0.sent(Ok(())) == v.sync().0.sent(Ok(())).0.cleanup()
            &&& cleaning.0.sent(Err(e)).1 == NextView::Done(Ok(()))
            &&& !cleaning.0.sent(Err(e)).0.conn.ready()
        }),
        v.conn.write_buffer.len() > 0 ==> ({
            let claiming = v.claim(v.claim_seq, cached);
            &&& claiming.0.sent(Err(e)).1 == NextView::Done(Err(e@))
            &&& !claiming.0.sent(Err(e)).0.conn.ready()
            &&& claiming.0.sent(Err(e)).0.claim_seq == v.claim_seq
        }),
{
}

/// A pipeline over a usable connection begins with nothing queued and an empty buffer. Over one that
/// cannot be used, [`Pipeline::new`] fails the connection for good, and [`Conn::pipeline`] refuses.
pub proof fn pipelines_begin_on_usable_connections<'a, H>(
    conn: &'a mut Conn<H>,
    p: Pipeline<'a, H>,
    other: &'a mut Conn<H>,
    r: Result<Pipeline<'a, H>, Error>,
)
    requires
        call_ensures(Pipeline::<'a, H>::new, (conn,), p),
        call_ensures(Conn::<H>::pipeline, (other,), r),
    ensures
        p@.queue_seq == 0 && p@.claim_seq == 0 && p@.expectations.len() == 0 && !p@.aborted,
        p@.conn.usable() == old(conn)@.usable(),
        old(conn)@.usable() ==> p@.conn.write_buffer.len() == 0,
        !old(conn)@.usable() ==> p@.conn.broken,
        r is Ok <==> old(other)@.usable(),
        r matches Ok(q) ==> q@.queue_seq == 0 && q@.claim_seq == 0 && q@.expectations.len() == 0
            && q@.conn.usable() && q@.conn.write_buffer.len() == 0,
        r is Err ==> final(other)@ == old(other)@,
{
}

/// A [`Pipeline`] does at each step what its model says: the laws of the model are those of the
/// pipeline.
pub proof fn pipelines_follow_their_model<'a, 't, H>(
    a: &mut Pipeline<'a, H>,
    ticket: Ticket<'t>,
    claimed: Next,
    b: &mut Pipeline<'a, H>,
    cleaned: Next,
    c: &mut Pipeline<'a, H>,
    written: Result<(), Error>,
    sent: Next,
    d: &mut Pipeline<'a, H>,
    message: Result<Message, Error>,
    received: Next,
    e: &mut Pipeline<'a, H>,
    answer: Result<(), Error>,
    called_back: Next,
)
    requires
        call_ensures(Pipeline::<'a, H>::claim, (a, ticket), claimed),
        call_ensures(Pipeline::<'a, H>::cleanup, (b,), cleaned),
        call_ensures(Pipeline::<'a, H>::sent, (c, written), sent),
        call_ensures(Pipeline::<'a, H>::received, (d, message), received),
        call_ensures(Pipeline::<'a, H>::called_back, (e, answer), called_back),
    ensures
        final(a)@ == old(a)@.after(
            Event::Claim { seq: ticket.seq(), cached: ticket.cached() },
        ) && claimed@ == old(a)@.claim(ticket.seq(), ticket.cached()).1,
        final(b)@ == old(b)@.after(Event::Cleanup) && cleaned@ == old(b)@.cleanup().1,
        final(c)@ == old(c)@.after(Event::Sent(written)) && sent@ == old(c)@.sent(written).1,
        final(d)@ == old(d)@.after(Event::Received(message)) && received@ == old(d)@.received(
            message,
        ).1,
        final(e)@ == old(e)@.after(Event::CalledBack(answer)) && called_back@
            == old(e)@.called_back(answer).1,
{
}

/// What contracts say of the next action of a pipeline is what it holds.
pub proof fn actions_show_what_they_hold(n: Next)
    ensures
        n is Write <==> n@ is Write,
        n is Read <==> n@ is Read,
        n matches Next::Notify(m) ==> n@ == NextView::Notify(m@),
        n matches Next::Row(columns, row) ==> n@ == NextView::Row(columns@, row@),
        n matches Next::End(complete) ==> n@ == NextView::End(complete.tag@),
        n matches Next::Done(Ok(())) ==> n@ == NextView::Done(Ok::<(), ErrorView>(())),
        n matches Next::Done(Err(e)) ==> n@ == NextView::Done(Err::<(), ErrorView>(e@)),
{
}

/// What [`Pipeline::pending_count`], [`Pipeline::is_aborted`], [`Pipeline::queue_seq`] and
/// [`Pipeline::claim_seq`] tell is how the pipeline stands.
pub proof fn pipelines_tell_how_they_stand<'a, H>(
    p: &Pipeline<'a, H>,
    pending: usize,
    aborted: bool,
    queued: usize,
    claimed: usize,
)
    requires
        call_ensures(Pipeline::<'a, H>::pending_count, (p,), pending),
        call_ensures(Pipeline::<'a, H>::is_aborted, (p,), aborted),
        call_ensures(Pipeline::<'a, H>::queue_seq, (p,), queued),
        call_ensures(Pipeline::<'a, H>::claim_seq, (p,), claimed),
        p@.claim_seq <= p@.queue_seq,
    ensures
        queued == p@.queue_seq,
        claimed == p@.claim_seq,
        pending == queued - claimed,
        aborted == p@.aborted,
{
}

/// Nothing is queued on a connection that has failed or is in the middle of an exchange.
pub proof fn nothing_is_queued_after_a_failure<'a, 's, H, S: IntoStatement + ?Sized, P: ToParams>(
    p: &mut Pipeline<'a, H>,
    statement: &'s S,
    params: P,
    r: Result<Ticket<'s>, Error>,
)
    requires
        call_ensures(Pipeline::<'a, H>::exec::<S, P>, (p, statement, params), r),
        old(p)@.conn.broken || old(p)@.conn.in_progress,
    ensures
        r matches Err(e) && e@ == ErrorView::ConnectionBroken,
        final(p)@ == old(p)@,
{
}

} // verus!
