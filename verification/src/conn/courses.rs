//! What the operations of a connection make of what they are told.

use vstd::prelude::*;
use vstd::string::*;

use crate::conn::batch::DEFAULT_CHUNK_SIZE;
use crate::conn::drive::{startup_step, Action, Demand, DemandView, Progress, ProgressView};
use crate::conn::exchange::{ExecuteExchange, Fetch, FetchView, ReplyExchange, SyncExchange};
use crate::conn::laws::{names_are_numbered, numbered};
use crate::conn::scope::{
    prepared, BindPlan, Plan, PlanView, PortalNext, PortalNextView, PortalOutcome, PortalRun,
    PortalStage, Preparation, TransactionNext, TransactionNextView, TransactionOutcome,
    TransactionRun, BEGIN, COMMIT, PING, ROLLBACK,
};
use crate::conn::target::{Target, TargetView, SOCKET_DIRECTORIES_QUERY};
use crate::conn::{Conn, ConnView};
use crate::error::{ends_session, Error, ErrorView};
use crate::named_portal::NamedPortal;
use crate::params::ToParams;
use crate::pool::RESET;
use crate::protocol::backend::{
    async_of, asynchronous, columns_of, complete_of, error_of, ready_of, row_of, Message,
};
use crate::protocol::peer::{asks, bare_requests_are_read, Request};
use crate::statement::{IntoStatement, PreparedStatement, StatementRef};
use crate::types::{BackendKeyData, TransactionStatus};

verus! {

/// The connection has taken in a message, and nothing else of it has changed.
pub open spec fn only_heard<H>(v: ConnView<H>, w: ConnView<H>, m: Message) -> bool {
    w == (ConnView { type_byte: m.type_byte, read_buffer: m.payload@, ..v })
}

/// A Sync is over at ReadyForQuery, with the transaction status that it brings: with success, or with
/// the last server error before it. An error that ends the session is the outcome at once, and the
/// connection has failed. What cannot be decoded is the outcome too, and leaves the exchange
/// unfinished. All other messages are read over.
pub proof fn sync_takes_its_messages<H>(
    exchange: &mut SyncExchange,
    conn: &mut Conn<H>,
    m: Message,
    p: Progress<()>,
)
    requires
        call_ensures(SyncExchange::received::<H>, (exchange, conn, Ok::<Message, Error>(m)), p),
        !asynchronous(m.type_byte),
    ensures
        ({
            let heard = ConnView { type_byte: m.type_byte, read_buffer: m.payload@, ..old(conn)@ };
            if m.type_byte == 90 {
                match ready_of(m.payload@) {
                    Ok(status) => final(conn)@ == (ConnView {
                        transaction_status: status,
                        in_progress: false,
                        ..heard
                    }) && p@ == ProgressView::Done(
                        match old(exchange)@ {
                            Some(e) => Err::<(), ErrorView>(e),
                            None => Ok::<(), ErrorView>(()),
                        },
                    ),
                    Err(e) => final(conn)@ == heard && p@ == ProgressView::Done(
                        Err::<(), ErrorView>(e),
                    ),
                }
            } else if m.type_byte == 69 {
                match error_of(m.payload@) {
                    Ok(fields) => if ends_session(fields) {
                        final(conn)@ == (ConnView { broken: true, ..heard }) && p@
                            == ProgressView::Done(Err::<(), ErrorView>(ErrorView::Server(fields)))
                    } else {
                        final(conn)@ == heard && p@ == ProgressView::<()>::Io(DemandView::Read)
                            && final(exchange)@ == Some(ErrorView::Server(fields))
                    },
                    Err(e) => final(conn)@ == heard && p@ == ProgressView::Done(
                        Err::<(), ErrorView>(e),
                    ),
                }
            } else {
                final(conn)@ == heard && p@ == ProgressView::<()>::Io(DemandView::Read)
                    && final(exchange)@ == old(exchange)@
            }
        }),
{
}

/// A server error that a Sync meets is its outcome once ReadyForQuery comes, and the connection can
/// be used again then.
pub proof fn sync_reports_the_error_at_its_end<H>(
    exchange: &mut SyncExchange,
    conn: &mut Conn<H>,
    error: Message,
    first: Progress<()>,
    later: &mut SyncExchange,
    later_conn: &mut Conn<H>,
    ready: Message,
    second: Progress<()>,
    fields: Seq<(u8, Seq<u8>)>,
)
    requires
        call_ensures(
            SyncExchange::received::<H>,
            (exchange, conn, Ok::<Message, Error>(error)),
            first,
        ),
        call_ensures(
            SyncExchange::received::<H>,
            (later, later_conn, Ok::<Message, Error>(ready)),
            second,
        ),
        final(exchange)@ == old(later)@,
        final(conn)@ == old(later_conn)@,
        !old(conn)@.broken,
        error.type_byte == 69,
        error_of(error.payload@) == Ok::<Seq<(u8, Seq<u8>)>, ErrorView>(fields),
        !ends_session(fields),
        ready.type_byte == 90,
        ready_of(ready.payload@) is Ok,
    ensures
        first@ == ProgressView::<()>::Io(DemandView::Read),
        second@ == ProgressView::Done(Err::<(), ErrorView>(ErrorView::Server(fields))),
        final(later_conn)@.ready(),
        final(later_conn)@.scope_pending == old(conn)@.scope_pending,
{
}

/// Bind and Close are over with success at their confirmation, which has no payload. A server error,
/// and any other message, is their failure and leaves the exchange unfinished.
pub proof fn reply_takes_its_messages<H>(
    exchange: &mut ReplyExchange,
    conn: &mut Conn<H>,
    m: Message,
    p: Progress<()>,
)
    requires
        call_ensures(ReplyExchange::received::<H>, (exchange, conn, Ok::<Message, Error>(m)), p),
        !asynchronous(m.type_byte),
        old(exchange).expects() != 69,
    ensures
        *final(exchange) == *old(exchange),
        ({
            let heard = ConnView { type_byte: m.type_byte, read_buffer: m.payload@, ..old(conn)@ };
            if m.type_byte == old(exchange).expects() && m.payload@.len() == 0 {
                p@ == ProgressView::Done(Ok::<(), ErrorView>(())) && final(conn)@ == (ConnView {
                    in_progress: false,
                    ..heard
                })
            } else {
                &&& final(conn)@ == heard
                &&& p@ matches ProgressView::Done(r) && r is Err
                &&& m.type_byte == 69 ==> (error_of(m.payload@) matches Ok(fields) ==> p@
                    == ProgressView::Done(Err::<(), ErrorView>(ErrorView::Server(fields))))
            }
        }),
{
}

/// Bind waits for BindComplete (2), Close for CloseComplete (3).
pub proof fn confirmations_are_their_own<H, P: ToParams>(
    conn: &mut Conn<H>,
    portal: &str,
    statement: &str,
    params: &P,
    bound: Result<ReplyExchange, Error>,
    closing: &mut Conn<H>,
    closed: Result<ReplyExchange, Error>,
)
    requires
        call_ensures(Conn::<H>::lowlevel_bind::<P>, (conn, portal, statement, params), bound),
        call_ensures(Conn::<H>::lowlevel_close_portal, (closing, portal), closed),
    ensures
        bound matches Ok(x) ==> x.expects() == 50,
        closed matches Ok(x) ==> x.expects() == 51,
{
}

/// The execution of a portal tells the columns when they come, hands out each row with the columns
/// that came last, tells the end of the command with its tag, and is over where the portal is
/// suspended: more rows are there then. Errors and what cannot be decoded are its failure and leave
/// the exchange unfinished.
pub proof fn fetch_takes_its_messages<H>(
    exchange: &mut ExecuteExchange,
    conn: &mut Conn<H>,
    m: Message,
    f: Fetch,
)
    requires
        call_ensures(ExecuteExchange::received::<H>, (exchange, conn, Ok::<Message, Error>(m)), f),
        !asynchronous(m.type_byte),
    ensures
        final(exchange).columns() == (if m.type_byte == 84 {
            m.payload@
        } else {
            old(exchange).columns()
        }),
        ({
            let heard = ConnView { type_byte: m.type_byte, read_buffer: m.payload@, ..old(conn)@ };
            if m.type_byte == 115 && m.payload@.len() == 0 {
                f@ == FetchView::Done(Ok::<bool, ErrorView>(true)) && final(conn)@ == (ConnView {
                    in_progress: false,
                    ..heard
                })
            } else {
                &&& final(conn)@ == heard
                &&& m.type_byte == 84 ==> f@ == match columns_of(m.payload@) {
                    Ok(columns) => FetchView::ResultStart(columns),
                    Err(e) => FetchView::Done(Err::<bool, ErrorView>(e)),
                }
                &&& m.type_byte == 68 ==> f@ == match (
                    columns_of(old(exchange).columns()),
                    row_of(m.payload@),
                ) {
                    (Ok(columns), Ok(row)) => FetchView::Row(columns, row),
                    (Err(e), _) => FetchView::Done(Err::<bool, ErrorView>(e)),
                    (Ok(_), Err(e)) => FetchView::Done(Err::<bool, ErrorView>(e)),
                }
                &&& m.type_byte == 67 ==> f@ == match complete_of(m.payload@) {
                    Ok(tag) => FetchView::ResultEnd(tag),
                    Err(e) => FetchView::Done(Err::<bool, ErrorView>(e)),
                }
                &&& m.type_byte == 110 && m.payload@.len() == 0 ==> f@ == FetchView::Read
                &&& m.type_byte == 69 ==> (error_of(m.payload@) matches Ok(fields) ==> f@
                    == FetchView::Done(Err::<bool, ErrorView>(ErrorView::Server(fields))))
                &&& m.type_byte != 84 && m.type_byte != 68 && m.type_byte != 67 && m.type_byte
                    != 110 ==> (f@ matches FetchView::Done(r) && r is Err)
            }
        }),
{
}

/// The rows of a portal go by the columns that were announced before them: a row that follows a
/// RowDescription is handed out with the columns of that one, whatever came before.
pub proof fn fetched_rows_go_by_their_columns<H>(
    exchange: &mut ExecuteExchange,
    conn: &mut Conn<H>,
    announced: Message,
    first: Fetch,
    later: &mut ExecuteExchange,
    later_conn: &mut Conn<H>,
    row: Message,
    second: Fetch,
)
    requires
        call_ensures(
            ExecuteExchange::received::<H>,
            (exchange, conn, Ok::<Message, Error>(announced)),
            first,
        ),
        call_ensures(
            ExecuteExchange::received::<H>,
            (later, later_conn, Ok::<Message, Error>(row)),
            second,
        ),
        final(exchange).columns() == old(later).columns(),
        announced.type_byte == 84,
        columns_of(announced.payload@) is Ok,
        row.type_byte == 68,
        row_of(row.payload@) is Ok,
    ensures
        first@ == FetchView::ResultStart(columns_of(announced.payload@)->Ok_0),
        second@ == FetchView::Row(
            columns_of(announced.payload@)->Ok_0,
            row_of(row.payload@)->Ok_0,
        ),
{
}

/// The end of a command, once the handler has taken it, is the end of the execution of a portal: no
/// more rows are there. Before that the handler's answer lets it read on, and an error of the handler
/// is the failure of the execution.
pub proof fn fetch_ends_with_its_command<H>(
    exchange: &mut ExecuteExchange,
    conn: &mut Conn<H>,
    complete: Message,
    first: Fetch,
    later: &mut ExecuteExchange,
    later_conn: &mut Conn<H>,
    answer: Result<(), Error>,
    second: Fetch,
)
    requires
        call_ensures(
            ExecuteExchange::received::<H>,
            (exchange, conn, Ok::<Message, Error>(complete)),
            first,
        ),
        call_ensures(ExecuteExchange::called_back::<H>, (later, later_conn, answer), second),
        *final(exchange) == *old(later),
        final(conn)@ == old(later_conn)@,
        first@ is ResultEnd || first@ is Row || first@ is ResultStart,
    ensures
        match answer {
            Err(e) => second@ == FetchView::Done(Err::<bool, ErrorView>(e@)) && final(later_conn)@
                == final(conn)@,
            Ok(()) => if complete.type_byte == 67 {
                second@ == FetchView::Done(Ok::<bool, ErrorView>(false)) && final(later_conn)@
                    == (ConnView { in_progress: false, ..final(conn)@ })
            } else {
                second@ == FetchView::Read && final(later_conn)@ == final(conn)@
            },
        },
{
}

/// Whatever a machine asks for is done, by every driver that can meet it: reading, writing, and both.
/// Its failure is the outcome.
pub proof fn machines_get_what_they_ask<H>(
    conn: &mut Conn<H>,
    step: Result<Action, Error>,
    status: TransactionStatus,
    p: Progress<()>,
    binding: &mut Conn<H>,
    bound: Progress<()>,
    preparing: &mut Conn<H>,
    prepared: Progress<()>,
    executing: &mut Conn<H>,
    executed: Progress<()>,
    started: Progress<()>,
    tls: bool,
)
    requires
        call_ensures(Conn::<H>::drive_step, (conn, step, status), p),
        call_ensures(Conn::<H>::bind_step, (binding, step), bound),
        call_ensures(Conn::<H>::prepare_batch_step, (preparing, step, status), prepared),
        call_ensures(Conn::<H>::batch_step, (executing, step, status), executed),
        call_ensures(startup_step, (step, tls), started),
    ensures
        step matches Ok(Action::ReadMessage) ==> p@ == ProgressView::<()>::Io(DemandView::Read)
            && bound@ == p@ && prepared@ == p@ && executed@ == p@ && started@ == p@,
        step matches Ok(Action::WriteAndReadMessage) ==> p@ == ProgressView::<()>::Io(
            DemandView::WriteRead,
        ) && bound@ == p@ && prepared@ == p@ && executed@ == p@ && started@ == p@,
        step matches Ok(Action::Write) ==> p@ == ProgressView::<()>::Io(DemandView::Write) && bound@
            == p@ && started@ == p@,
        step matches Err(e) ==> p@ == ProgressView::Done(Err::<(), ErrorView>(e@)) && bound@ == p@
            && prepared@ == p@ && executed@ == p@ && started@ == p@,
        step matches Ok(Action::Finished) ==> p@ == ProgressView::Done(Ok::<(), ErrorView>(()))
            && bound@ == p@ && prepared@ == p@ && executed@ == p@ && started@ == p@,
        step matches Ok(Action::Error(e)) ==> p@ == ProgressView::Done(
            Err::<(), ErrorView>(ErrorView::Server(e@)),
        ) && executed@ == p@ && (bound@ matches ProgressView::Done(r) && r is Err) && (prepared@
            matches ProgressView::Done(r) && r is Err) && (started@ matches ProgressView::Done(r)
            && r is Err),
        step matches Ok(Action::WriteAndReadByte) ==> started@ == ProgressView::<()>::Io(
            DemandView::WriteReadByte,
        ) && (p@ matches ProgressView::Done(r) && r is Err),
        step matches Ok(Action::TlsHandshake) ==> (tls ==> started@ == ProgressView::<()>::Io(
            DemandView::TlsHandshake,
        )) && (!tls ==> (started@ matches ProgressView::Done(r) && r is Err)) && (p@
            matches ProgressView::Done(r) && r is Err),
        step matches Ok(Action::HandleAsyncMessageAndReadMessage(_)) ==> started@
            == ProgressView::<()>::Io(DemandView::Read),
{
}

/// A machine that has finished, and one that reports a server error at its end, leaves its
/// transaction status and ends the exchange; steps on the way change nothing of the connection.
pub proof fn machines_leave_their_status<H>(
    conn: &mut Conn<H>,
    step: Result<Action, Error>,
    status: TransactionStatus,
    p: Progress<()>,
    binding: &mut Conn<H>,
    bound: Progress<()>,
    preparing: &mut Conn<H>,
    prepared: Progress<()>,
    executing: &mut Conn<H>,
    executed: Progress<()>,
)
    requires
        call_ensures(Conn::<H>::drive_step, (conn, step, status), p),
        call_ensures(Conn::<H>::bind_step, (binding, step), bound),
        call_ensures(Conn::<H>::prepare_batch_step, (preparing, step, status), prepared),
        call_ensures(Conn::<H>::batch_step, (executing, step, status), executed),
    ensures
        step matches Ok(Action::Finished) ==> final(conn)@ == (ConnView {
            in_progress: false,
            transaction_status: status,
            ..old(conn)@
        }) && final(binding)@ == (ConnView { in_progress: false, ..old(binding)@ })
            && final(preparing)@ == (ConnView {
            in_progress: false,
            transaction_status: status,
            ..old(preparing)@
        }) && final(executing)@ == (ConnView {
            in_progress: false,
            transaction_status: status,
            ..old(executing)@
        }),
        step matches Ok(Action::Error(e)) ==> final(conn)@ == (ConnView {
            in_progress: false,
            transaction_status: status,
            broken: old(conn)@.broken || ends_session(e@),
            ..old(conn)@
        }) && final(executing)@ == (ConnView {
            in_progress: false,
            transaction_status: status,
            broken: old(executing)@.broken || ends_session(e@),
            ..old(executing)@
        }),
        p@ is Io ==> final(conn)@ == old(conn)@,
        bound@ is Io ==> final(binding)@ == old(binding)@,
        prepared@ is Io ==> final(preparing)@ == old(preparing)@,
        executed@ is Io ==> final(executing)@ == old(executing)@,
        step is Err ==> final(conn)@.in_progress == old(conn)@.in_progress && final(binding)@
            == old(binding)@ && final(preparing)@.in_progress == old(preparing)@.in_progress
            && final(executing)@.in_progress == old(executing)@.in_progress,
{
}

/// The plan is for the statement: SQL text as it is, or a prepared statement by its name, which its
/// number can be read back from, and its types.
pub open spec fn plans(plan: PlanView, statement: StatementRef<'_>) -> bool {
    match statement {
        StatementRef::Sql(sql) => plan == PlanView::Sql(sql@),
        StatementRef::Prepared(stmt) => plan matches PlanView::Prepared { name, oids } && numbered(
            name,
            "_zero_s_"@,
            stmt.idx as nat,
        ) && oids == stmt.param_oids@,
    }
}

/// [`Conn::exec`], [`Conn::create_named_portal`] and [`Conn::exec_portal`] plan the statement that they
/// are given, for the portal that is named or for the unnamed one, on a usable connection.
pub proof fn plans_are_for_their_statement<'s, H, S: IntoStatement + ?Sized>(
    conn: &Conn<H>,
    statement: &'s S,
    portal: &'s str,
    r: Result<Plan<'s>, Error>,
    named: Result<BindPlan<'s>, Error>,
    unnamed: Result<BindPlan<'s>, Error>,
)
    requires
        call_ensures(Conn::<H>::exec::<S>, (conn, statement), r),
        call_ensures(Conn::<H>::create_named_portal::<S>, (conn, portal, statement), named),
        call_ensures(Conn::<H>::exec_portal::<S>, (conn, statement), unnamed),
    ensures
        if conn@.usable() {
            &&& r matches Ok(p) && plans(p@, statement.statement())
            &&& named matches Ok(b) && b@.portal == portal@ && plans(b@.plan, statement.statement())
            &&& unnamed matches Ok(b) && b@.portal.len() == 0 && plans(
                b@.plan,
                statement.statement(),
            )
        } else {
            &&& r matches Err(e) && e@ == ErrorView::ConnectionBroken
            &&& named matches Err(e) && e@ == ErrorView::ConnectionBroken
            &&& unnamed matches Err(e) && e@ == ErrorView::ConnectionBroken
        },
{
    if let StatementRef::Prepared(stmt) = statement.statement() {
        names_are_numbered(stmt.idx as nat);
    }
}

/// What is prepared is what was given, under a number that no name before has: [`Conn::prepare`] asks
/// for it without types, [`Conn::prepare_typed`] with the given ones, and [`Conn::query`] sends the
/// text that it is given. All of them begin an exchange, on a usable connection only.
pub proof fn preparations_are_as_given<'q, H>(
    conn: &mut Conn<H>,
    query: &'q str,
    oids: &'q [u32],
    r: Result<Preparation<'q>, Error>,
    plain: &mut Conn<H>,
    untyped: Result<Preparation<'q>, Error>,
    asking: &mut Conn<H>,
    asked: Result<&'q str, Error>,
)
    requires
        call_ensures(Conn::<H>::prepare_typed, (conn, query, oids), r),
        call_ensures(Conn::<H>::prepare, (plain, query), untyped),
        call_ensures(Conn::<H>::query, (asking, query), asked),
        old(conn)@.name_counter < u64::MAX,
        old(plain)@.name_counter < u64::MAX,
    ensures
        r is Ok <==> old(conn)@.usable(),
        untyped is Ok <==> old(plain)@.usable(),
        asked is Ok <==> old(asking)@.usable(),
        r matches Ok(p) ==> p.query@ == query@ && p.oids@ == oids@ && p.idx
            == old(conn)@.name_counter + 1 && final(conn)@ == (ConnView {
            in_progress: true,
            name_counter: p.idx,
            ..old(conn)@
        }),
        untyped matches Ok(p) ==> p.query@ == query@ && p.oids@.len() == 0 && p.idx
            == old(plain)@.name_counter + 1 && final(plain)@ == (ConnView {
            in_progress: true,
            name_counter: p.idx,
            ..old(plain)@
        }),
        asked matches Ok(sql) ==> sql@ == query@ && final(asking)@ == (ConnView {
            in_progress: true,
            ..old(asking)@
        }),
        r is Err ==> final(conn)@ == old(conn)@,
        untyped is Err ==> final(plain)@ == old(plain)@,
        asked is Err ==> final(asking)@ == old(asking)@,
{
}

/// The run of an unnamed portal opens its scope and begins to bind; once the portal is bound, the
/// closure is called with the connection as it is; after the closure a Sync is all that is sent, where
/// the connection can go on. What fails on the way is the outcome, and fails the connection where it
/// breaks it; the failure of the closure is not hidden by that.
pub proof fn portal_goes_its_way<T, H>(
    v: ConnView<H>,
    e: Error,
    result: Result<T, Error>,
)
    ensures
        v.ready() ==> ({
            let step = v.portal_step(PortalStage::<T>::Planned, PortalOutcome::Made(Ok(())));
            &&& step.next is Bind
            &&& step.stage is Binding
            &&& step.conn == (ConnView { scope_pending: true, in_progress: true, ..v })
        }),
        ({
            let step = v.portal_step(PortalStage::<T>::Binding, PortalOutcome::Bound(Ok(())));
            step.next is Call && step.stage is Calling && step.conn == v
        }),
        v.ready() ==> ({
            let step = v.portal_step(PortalStage::<T>::Calling, PortalOutcome::Returned(result));
            &&& step.next == PortalNextView::<T>::Sync(None)
            &&& step.stage == PortalStage::Syncing(result)
            &&& asks(step.conn.write_buffer, seq![Request::Sync])
            &&& step.conn == (ConnView {
                write_buffer: step.conn.write_buffer,
                in_progress: true,
                ..v
            })
        }),
        !v.ready() ==> ({
            let step = v.portal_step(PortalStage::<T>::Calling, PortalOutcome::Returned(result));
            &&& step.next == PortalNextView::Done(
                match result {
                    Ok(_) => Err::<T, ErrorView>(ErrorView::ConnectionBroken),
                    Err(e) => Err::<T, ErrorView>(e@),
                },
            )
            &&& step.stage is Over
            &&& step.conn.scope_pending == v.scope_pending
            &&& step.conn.in_progress == v.in_progress
            &&& v.broken ==> step.conn.broken
        }),
        !v.ready() ==> v.portal_step(PortalStage::<T>::Planned, PortalOutcome::Made(Ok(()))).next
            == PortalNextView::Done(Err::<T, ErrorView>(ErrorView::ConnectionBroken)),
        ({
            let made = v.portal_step(PortalStage::<T>::Planned, PortalOutcome::Made(Err(e)));
            let bound = v.portal_step(PortalStage::<T>::Binding, PortalOutcome::Bound(Err(e)));
            &&& made.next == PortalNextView::Done(Err::<T, ErrorView>(e@)) && bound.next
                == made.next
            &&& made.stage is Over && bound.stage is Over
            &&& made.conn == (ConnView { broken: v.broken || e@.breaks(), ..v }) && bound.conn
                == made.conn
        }),
{
    bare_requests_are_read();
}

/// Three flags decide whether a connection can be used: a failure, an exchange that is going on, and
/// a scope that is owed its end. The last one does not keep the scope itself from going on.
pub proof fn flags_decide<H>(
    conn: &Conn<H>,
    broken: bool,
    usable: Result<(), Error>,
    ready: Result<(), Error>,
)
    requires
        call_ensures(Conn::<H>::is_broken, (conn,), broken),
        call_ensures(Conn::<H>::ensure_usable, (conn,), usable),
        call_ensures(Conn::<H>::ensure_exchange_ready, (conn,), ready),
    ensures
        broken <==> conn@.broken || conn@.in_progress || conn@.scope_pending,
        usable is Ok <==> !broken,
        ready is Ok <==> !conn@.broken && !conn@.in_progress,
        usable matches Err(e) ==> e@ == ErrorView::ConnectionBroken,
        ready matches Err(e) ==> e@ == ErrorView::ConnectionBroken,
{
}

/// An exchange keeps every other one from beginning, and an outcome that breaks the connection keeps
/// it from being used for good.
pub proof fn exchanges_exclude_each_other<H, T>(
    conn: &mut Conn<H>,
    begun: Result<(), Error>,
    later: &mut Conn<H>,
    again: Result<(), Error>,
    failing: &mut Conn<H>,
    result: Result<T, Error>,
    r: Result<T, Error>,
)
    requires
        call_ensures(Conn::<H>::begin_exchange, (conn,), begun),
        call_ensures(Conn::<H>::begin_exchange, (later,), again),
        call_ensures(Conn::<H>::conclude::<T>, (failing, result), r),
        final(conn)@ == old(later)@,
    ensures
        begun is Ok <==> old(conn)@.ready(),
        again is Err,
        final(later)@ == old(later)@,
        r == result,
        result matches Err(e) ==> final(failing)@.broken == (old(failing)@.broken || e@.breaks()),
        result is Ok ==> final(failing)@ == old(failing)@,
        final(failing)@ == (ConnView { broken: final(failing)@.broken, ..old(failing)@ }),
{
}

/// The statements that are prepared together get the numbers after the last one that was handed out,
/// in the order of their queries, and nothing begins where there are none. A statement is closed by
/// its own name.
pub proof fn numbers_count_on<H>(
    conn: &mut Conn<H>,
    queries: &[&str],
    r: Result<Vec<u64>, Error>,
    closing: &mut Conn<H>,
    stmt: &PreparedStatement,
    closed: Result<String, Error>,
    i: int,
)
    requires
        call_ensures(Conn::<H>::prepare_batch, (conn, queries), r),
        call_ensures(Conn::<H>::close_statement, (closing, stmt), closed),
        old(conn)@.name_counter + queries@.len() <= u64::MAX,
        0 <= i < queries@.len(),
    ensures
        r is Ok <==> old(conn)@.usable(),
        r matches Ok(numbers) ==> numbers@.len() == queries@.len() && numbers@[i]
            == old(conn)@.name_counter + 1 + i && final(conn)@ == (ConnView {
            in_progress: true,
            name_counter: (old(conn)@.name_counter + queries@.len()) as u64,
            ..old(conn)@
        }),
        r is Err ==> final(conn)@ == old(conn)@,
        closed is Ok <==> old(closing)@.usable(),
        closed matches Ok(name) ==> numbered(name@, "_zero_s_"@, stmt.idx as nat)
            && final(closing)@ == (ConnView { in_progress: true, ..old(closing)@ }),
{
    names_are_numbered(stmt.idx as nat);
}

/// A named portal is complete once an execution of it has left no rows, and not before; an execution
/// that failed says nothing of that. Once its Close was confirmed, a Sync is all that is sent.
pub proof fn named_portal_goes_its_way<'tx, H>(
    portal: &mut NamedPortal<'tx>,
    has_more: Result<bool, Error>,
    r: Result<(), Error>,
    complete: bool,
    before: bool,
    closing: NamedPortal<'tx>,
    conn: &mut Conn<H>,
    closed: Result<(), Error>,
    synced: Result<SyncExchange, Error>,
)
    requires
        call_ensures(NamedPortal::<'tx>::executed, (portal, has_more), r),
        call_ensures(NamedPortal::<'tx>::is_complete, (&*final(portal),), complete),
        call_ensures(NamedPortal::<'tx>::is_complete, (&*old(portal),), before),
        call_ensures(NamedPortal::<'tx>::closed::<H>, (closing, conn, closed), synced),
    ensures
        match has_more {
            Ok(more) => r is Ok && complete == !more,
            Err(e) => r == Err::<(), Error>(e) && complete == before,
        },
        closed is Ok && old(conn)@.usable() ==> synced is Ok && asks(
            final(conn)@.write_buffer,
            seq![Request::Sync],
        ) && final(conn)@.in_progress,
        closed is Ok && !old(conn)@.usable() ==> (synced matches Err(e) && e@
            == ErrorView::ConnectionBroken) && final(conn)@ == old(conn)@,
        closed matches Err(e) ==> synced == Err::<SyncExchange, Error>(e)
            && final(conn)@.in_progress == old(conn)@.in_progress,
{
    bare_requests_are_read();
}

/// A low-level Bind or Execute, and the execution of a named portal, is refused on a connection that
/// cannot be used, and leaves it as it is: nothing is written.
pub proof fn unusable_connections_fetch_nothing<'tx, H, P: ToParams>(
    a: &mut Conn<H>,
    portal: &str,
    statement: &str,
    params: &P,
    bound: Result<ReplyExchange, Error>,
    b: &mut Conn<H>,
    max_rows: u32,
    executed: Result<ExecuteExchange, Error>,
    c: &mut Conn<H>,
    handle: &NamedPortal<'tx>,
    fetched: Result<ExecuteExchange, Error>,
)
    requires
        call_ensures(Conn::<H>::lowlevel_bind::<P>, (a, portal, statement, params), bound),
        call_ensures(Conn::<H>::lowlevel_execute, (b, portal, max_rows), executed),
        call_ensures(NamedPortal::<'tx>::exec::<H>, (handle, c, max_rows), fetched),
        !old(a)@.usable() && !old(b)@.usable() && !old(c)@.usable(),
    ensures
        (bound matches Err(e) && e@ == ErrorView::ConnectionBroken) && final(a)@ == old(a)@,
        (executed matches Err(e) && e@ == ErrorView::ConnectionBroken) && final(b)@ == old(b)@,
        (fetched matches Err(e) && e@ == ErrorView::ConnectionBroken) && final(c)@ == old(c)@,
{
}

/// A low-level Close, Sync or Flush, a ping and the end of the session are refused on a connection
/// that cannot be used, and leave it as it is: nothing is written.
pub proof fn unusable_connections_send_nothing<H>(
    a: &mut Conn<H>,
    portal: &str,
    closed: Result<ReplyExchange, Error>,
    b: &mut Conn<H>,
    synced: Result<SyncExchange, Error>,
    c: &mut Conn<H>,
    flushed: Result<(), Error>,
    d: &mut Conn<H>,
    pinged: Result<&'static str, Error>,
    e: &mut Conn<H>,
    ended: Result<(), Error>,
)
    requires
        call_ensures(Conn::<H>::lowlevel_close_portal, (a, portal), closed),
        call_ensures(Conn::<H>::lowlevel_sync, (b,), synced),
        call_ensures(Conn::<H>::lowlevel_flush, (c,), flushed),
        call_ensures(Conn::<H>::ping, (d,), pinged),
        call_ensures(Conn::<H>::close, (e,), ended),
        !old(a)@.usable() && !old(b)@.usable() && !old(c)@.usable(),
        !old(d)@.usable() && !old(e)@.usable(),
    ensures
        (closed matches Err(x) && x@ == ErrorView::ConnectionBroken) && final(a)@ == old(a)@,
        (synced matches Err(x) && x@ == ErrorView::ConnectionBroken) && final(b)@ == old(b)@,
        (flushed matches Err(x) && x@ == ErrorView::ConnectionBroken) && final(c)@ == old(c)@,
        (pinged matches Err(x) && x@ == ErrorView::ConnectionBroken) && final(d)@ == old(d)@,
        (ended matches Err(x) && x@ == ErrorView::ConnectionBroken) && final(e)@ == old(e)@,
{
}

/// A message that cannot be read is the failure of the exchange that waits for it, and leaves the
/// exchange unfinished. A Flush is over once it was written, and unfinished where it was not.
pub proof fn transport_failures_are_outcomes<H>(
    sync: &mut SyncExchange,
    a: &mut Conn<H>,
    failure: Error,
    synced: Progress<()>,
    reply: &mut ReplyExchange,
    b: &mut Conn<H>,
    replied: Progress<()>,
    fetch: &mut ExecuteExchange,
    c: &mut Conn<H>,
    fetched: Fetch,
    d: &mut Conn<H>,
    written: Result<(), Error>,
    flushed: Result<(), Error>,
)
    requires
        call_ensures(
            SyncExchange::received::<H>,
            (sync, a, Err::<Message, Error>(failure)),
            synced,
        ),
        call_ensures(
            ReplyExchange::received::<H>,
            (reply, b, Err::<Message, Error>(failure)),
            replied,
        ),
        call_ensures(
            ExecuteExchange::received::<H>,
            (fetch, c, Err::<Message, Error>(failure)),
            fetched,
        ),
        call_ensures(Conn::<H>::flush_sent, (d, written), flushed),
    ensures
        synced@ == ProgressView::Done(Err::<(), ErrorView>(failure@)) && final(a)@ == old(a)@,
        replied@ == ProgressView::Done(Err::<(), ErrorView>(failure@)) && final(b)@ == old(b)@,
        fetched@ == FetchView::Done(Err::<bool, ErrorView>(failure@)) && final(c)@ == old(c)@,
        flushed == written,
        final(d)@ == (ConnView {
            in_progress: old(d)@.in_progress && written is Err,
            ..old(d)@
        }),
{
}

/// A connection that was established carries what the server has handed out, and can be used.
pub proof fn established_connections_know_their_server<H>(
    key: Option<BackendKeyData>,
    params: Vec<(String, String)>,
    status: TransactionStatus,
    conn: Conn<H>,
    known_key: Option<&BackendKeyData>,
    id: u32,
    known_params: &[(String, String)],
    known_status: TransactionStatus,
    open: bool,
    broken: bool,
)
    requires
        call_ensures(Conn::<H>::established, (key, params, status), conn),
        call_ensures(Conn::<H>::backend_key, (&conn,), known_key),
        call_ensures(Conn::<H>::connection_id, (&conn,), id),
        call_ensures(Conn::<H>::server_params, (&conn,), known_params),
        call_ensures(Conn::<H>::transaction_status, (&conn,), known_status),
        call_ensures(Conn::<H>::in_transaction, (&conn,), open),
        call_ensures(Conn::<H>::is_broken, (&conn,), broken),
    ensures
        key matches Some(k) ==> known_key == Some(&k) && id == k.process_id,
        key is None ==> known_key is None && id == 0,
        known_params@ == params@,
        known_status == status,
        open == (status != TransactionStatus::Idle),
        !broken,
        conn@.handler is None,
{
}

/// A connection keeps the message that was read last, and the handler that was set last.
pub proof fn connections_keep_what_they_get<H>(
    conn: &mut Conn<H>,
    m: Message,
    kind: u8,
    payload: &[u8],
    setting: &mut Conn<H>,
    handler: H,
    clearing: &mut Conn<H>,
)
    requires
        call_ensures(Conn::<H>::receive, (conn, m), ()),
        call_ensures(Conn::<H>::type_byte, (&*final(conn),), kind),
        call_ensures(Conn::<H>::read_buffer, (&*final(conn),), payload),
        call_ensures(Conn::<H>::set_async_message_handler, (setting, handler), ()),
        call_ensures(Conn::<H>::clear_async_message_handler, (clearing,), ()),
    ensures
        kind == m.type_byte,
        payload@ == m.payload@,
        final(conn)@.usable() == old(conn)@.usable(),
        final(conn)@.write_buffer == old(conn)@.write_buffer,
        final(setting)@ == (ConnView { handler: Some(handler), ..old(setting)@ }),
        final(clearing)@ == (ConnView { handler: None, ..old(clearing)@ }),
{
}

/// A named portal has the name that it was made with, and is not complete at first. The statement
/// that a machine hands out is the one that was prepared; without one something is wrong.
pub proof fn handles_are_as_made<'tx>(
    name: String,
    portal: NamedPortal<'tx>,
    read: &str,
    complete: bool,
    statement: Option<PreparedStatement>,
    r: Result<PreparedStatement, Error>,
)
    requires
        call_ensures(NamedPortal::<'tx>::new, (name,), portal),
        call_ensures(NamedPortal::<'tx>::name, (&portal,), read),
        call_ensures(NamedPortal::<'tx>::is_complete, (&portal,), complete),
        call_ensures(prepared, (statement,), r),
    ensures
        read@ == name@,
        !complete,
        statement matches Some(s) ==> r == Ok::<PreparedStatement, Error>(s),
        statement is None ==> (r matches Err(e) && e@ == ErrorView::LibraryBug(
            "No prepared statement"@,
        )),
{
}

/// What contracts say of the answers of an operation is what they hold.
pub proof fn answers_show_what_they_hold(d: Demand, p: Progress<bool>, f: Fetch, e: Error)
    ensures
        d is Read <==> d@ is Read,
        d is Write <==> d@ is Write,
        d is WriteRead <==> d@ is WriteRead,
        d is WriteReadByte <==> d@ is WriteReadByte,
        d is TlsHandshake <==> d@ is TlsHandshake,
        d matches Demand::NotifyRead(m) ==> d@ == DemandView::NotifyRead(m@),
        p matches Progress::Io(x) ==> p@ == ProgressView::<bool>::Io(x@),
        p matches Progress::Done(Ok(x)) ==> p@ == ProgressView::Done(Ok::<bool, ErrorView>(x)),
        p matches Progress::Done(Err(x)) ==> p@ == ProgressView::Done(
            Err::<bool, ErrorView>(x@),
        ),
        f is Read <==> f@ is Read,
        f matches Fetch::Notify(m) ==> f@ == FetchView::Notify(m@),
        f matches Fetch::ResultStart(c) ==> f@ == FetchView::ResultStart(c@),
        f matches Fetch::Row(c, row) ==> f@ == FetchView::Row(c@, row@),
        f matches Fetch::ResultEnd(c) ==> f@ == FetchView::ResultEnd(c.tag@),
        f matches Fetch::Done(Ok(more)) ==> f@ == FetchView::Done(Ok::<bool, ErrorView>(more)),
        f matches Fetch::Done(Err(x)) ==> f@ == FetchView::Done(Err::<bool, ErrorView>(x@)),
        match e {
            Error::ConnectionBroken => e@ is ConnectionBroken,
            Error::Io(t) => e@ == ErrorView::Io(t@),
            Error::Server(s) => e@ == ErrorView::Server(s@),
            Error::Protocol(t) => e@ == ErrorView::Protocol(t@),
            Error::LibraryBug(t) => e@ == ErrorView::LibraryBug(t@),
            Error::InvalidUsage(t) => e@ == ErrorView::InvalidUsage(t@),
            Error::Unsupported(t) => e@ == ErrorView::Unsupported(t@),
            Error::Encode(t) => e@ == ErrorView::Encode(t@),
            Error::Decode(t) => e@ == ErrorView::Decode(t@),
        },
{
}

/// Transactions and unnamed portals take at each step the way that their models say: the laws of the
/// models are theirs. A portal begins with its plan.
pub proof fn runs_follow_their_models<T, H>(
    conn: &Conn<H>,
    begun: (TransactionRun<T>, TransactionNext<T>),
    run: &mut TransactionRun<T>,
    last: TransactionOutcome<T>,
    next: TransactionNext<T>,
    fresh: PortalRun<T>,
    portal: &mut PortalRun<T>,
    lent: &mut Conn<H>,
    outcome: PortalOutcome<T>,
    step: PortalNext<T>,
)
    requires
        call_ensures(Conn::<H>::transaction::<T>, (conn,), begun),
        call_ensures(TransactionRun::<T>::step::<H>, (run, conn, last), next),
        call_ensures(PortalRun::<T>::new, (), fresh),
        call_ensures(PortalRun::<T>::step::<H>, (portal, lent, outcome), step),
    ensures
        (begun.0.stage(), begun.1@) == conn@.transaction_start::<T>(),
        (final(run).stage(), next@) == conn@.transaction_step(old(run).stage(), last),
        fresh.stage() is Planned,
        final(lent)@ == old(lent)@.portal_step(old(portal).stage(), outcome).conn,
        final(portal).stage() == old(lent)@.portal_step(old(portal).stage(), outcome).stage,
        step@ == old(lent)@.portal_step(old(portal).stage(), outcome).next,
{
}

/// What contracts say of the next action of a run, of a plan or of a target is what it holds.
pub proof fn actions_show_what_they_hold<'s, T>(
    t: TransactionNext<T>,
    p: PortalNext<T>,
    plan: Plan<'s>,
    bind: BindPlan<'s>,
    target: Target,
)
    ensures
        t matches TransactionNext::Query(sql) ==> t@ == TransactionNextView::<T>::Query(sql@),
        t is Call <==> t@ is Call,
        t matches TransactionNext::Done(Ok(x)) ==> t@ == TransactionNextView::Done(
            Ok::<T, ErrorView>(x),
        ),
        t matches TransactionNext::Done(Err(e)) ==> t@ == TransactionNextView::Done(
            Err::<T, ErrorView>(e@),
        ),
        p is Bind <==> p@ is Bind,
        p is Call <==> p@ is Call,
        p matches PortalNext::Sync(x) ==> p@ == PortalNextView::<T>::Sync(x@),
        p matches PortalNext::Done(Ok(x)) ==> p@ == PortalNextView::Done(Ok::<T, ErrorView>(x)),
        p matches PortalNext::Done(Err(e)) ==> p@ == PortalNextView::Done(Err::<T, ErrorView>(e@)),
        plan matches Plan::Sql(sql) ==> plan@ == PlanView::Sql(sql@),
        plan matches Plan::Prepared { name, oids } ==> plan@ == (PlanView::Prepared {
            name: name@,
            oids: oids@,
        }),
        bind@.portal == bind.portal@ && bind@.plan == bind.plan@,
        target matches Target::Unix(path) ==> target@ == TargetView::Unix(path@),
        target matches Target::Tcp(address) ==> target@ == TargetView::Tcp(address@),
{
}

/// The texts that the client sends of itself, and the size of a chunk where the caller does not say.
pub proof fn own_texts_are_these()
    ensures
        PING@.len() == 0,
        BEGIN@ == "BEGIN"@,
        COMMIT@ == "COMMIT"@,
        ROLLBACK@ == "ROLLBACK"@,
        RESET@ == "DISCARD ALL"@,
        SOCKET_DIRECTORIES_QUERY@ == "SHOW unix_socket_directories"@,
        DEFAULT_CHUNK_SIZE == 1000,
{
    reveal_strlit("");
}

/// The end of the Sync after the closure ends the scope of an unnamed portal, where the connection can
/// go on, and fails the connection where the outcome breaks it. Nothing else changes.
pub proof fn portal_scope_is_left<T, H>(
    v: ConnView<H>,
    result: Result<T, Error>,
    synced: Result<(), Error>,
)
    ensures
        ({
            let step = v.portal_step(PortalStage::Syncing(result), PortalOutcome::Synced(synced));
            let breaks = match (result, synced) {
                (Err(e), _) => e@.breaks(),
                (Ok(_), Err(e)) => e@.breaks(),
                (Ok(_), Ok(_)) => false,
            };
            &&& step.stage is Over
            &&& step.conn == (ConnView {
                scope_pending: v.scope_pending && (v.broken || v.in_progress),
                broken: v.broken || breaks,
                ..v
            })
        }),
{
}

/// What the server sends of its own accord changes nothing of an exchange: a Sync keeps the error that
/// it has to report, an execution its columns, and the handler hears of the message where one is set.
pub proof fn own_accord_changes_nothing<H>(
    sync: &mut SyncExchange,
    a: &mut Conn<H>,
    m: Message,
    synced: Progress<()>,
    reply: &mut ReplyExchange,
    b: &mut Conn<H>,
    replied: Progress<()>,
    fetch: &mut ExecuteExchange,
    c: &mut Conn<H>,
    fetched: Fetch,
)
    requires
        call_ensures(SyncExchange::received::<H>, (sync, a, Ok::<Message, Error>(m)), synced),
        call_ensures(ReplyExchange::received::<H>, (reply, b, Ok::<Message, Error>(m)), replied),
        call_ensures(ExecuteExchange::received::<H>, (fetch, c, Ok::<Message, Error>(m)), fetched),
        m.type_byte == 65 || m.type_byte == 78 || m.type_byte == 83,
    ensures
        final(sync)@ == old(sync)@,
        *final(reply) == *old(reply),
        final(fetch).columns() == old(fetch).columns(),
        only_heard(old(a)@, final(a)@, m),
        only_heard(old(b)@, final(b)@, m),
        only_heard(old(c)@, final(c)@, m),
        synced@ == ProgressView::<()>::Io(
            match async_of(m.type_byte, m.payload@) {
                Some(x) if old(a)@.handler is Some => DemandView::NotifyRead(x),
                _ => DemandView::Read,
            },
        ),
        replied@ == ProgressView::<()>::Io(
            match async_of(m.type_byte, m.payload@) {
                Some(x) if old(b)@.handler is Some => DemandView::NotifyRead(x),
                _ => DemandView::Read,
            },
        ),
        fetched@ == match async_of(m.type_byte, m.payload@) {
            Some(x) if old(c)@.handler is Some => FetchView::Notify(x),
            _ => FetchView::Read,
        },
{
}

} // verus!
