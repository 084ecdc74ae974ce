//! What the server gets to read from the operations of a connection.

use vstd::prelude::*;
use vstd::string::*;
use vstd::utf8::*;

use crate::conn::batch::{chunk_head, executions, first_failure, BatchExec, BatchNext};
use crate::conn::exchange::{ExecuteExchange, ReplyExchange, SyncExchange};
use crate::conn::{portal_name, Conn, ConnView};
use crate::error::{Error, ErrorView};
use crate::named_portal::NamedPortal;
use crate::params::ToParams;
use crate::protocol::frontend::{
    bind_frame, close_portal_frame, describe_portal_frame, execute_frame, flush_frame,
    sync_frame,
};
use crate::protocol::peer::{
    asks, asks_in_turn, bare_requests_are_read, bind_fits, bind_is_read,
    nothing_asks_nothing, parse_fits, parse_is_read, portal_fits, portal_requests_are_read, Request,
};
use crate::statement::{statement_name, IntoStatement, PreparedStatement, StatementRef};
use crate::text::{all_digits, decimal, decimal_reads_back, number_in};
use crate::unnamed_portal::UnnamedPortal;

verus! {

/// Bind values to a statement as a portal, parameters and results in binary.
pub open spec fn bind_request(
    portal: Seq<char>,
    statement: Seq<char>,
    values: Seq<Option<Seq<u8>>>,
) -> Request {
    Request::Bind { portal, statement, formats: seq![1nat], values, results: seq![1nat] }
}

/// The connection has begun an exchange with what it has to write, and nothing else of it has changed.
pub open spec fn only_writes<H>(v: ConnView<H>, w: ConnView<H>) -> bool {
    w == (ConnView { write_buffer: w.write_buffer, in_progress: true, ..v })
}

/// The unnamed portal can be asked for.
pub proof fn unnamed_fits()
    ensures
        portal_fits(Seq::empty()),
{
    assert(encode_utf8(Seq::<char>::empty()) =~= Seq::<u8>::empty());
}

/// A Bind of the set with number `from`, an Execute, a Bind of the next set, an Execute, and so on
/// up to the set before `to`: each set once, in the order of the list.
pub open spec fn set_requests<P: ToParams>(
    name: Seq<char>,
    params: Seq<P>,
    oids: Seq<u32>,
    from: int,
    to: int,
) -> Seq<Request> {
    Seq::new(
        (2 * (to - from)) as nat,
        |i: int|
            if i % 2 == 0 {
                bind_request(Seq::empty(), name, params[from + i / 2].encoded(oids)->Ok_0)
            } else {
                Request::Execute { portal: Seq::empty(), max_rows: 0 }
            },
    )
}

/// The sets in `from..to` can be encoded, and their Binds fit into messages.
pub open spec fn sets_fit<P: ToParams>(
    name: Seq<char>,
    params: Seq<P>,
    oids: Seq<u32>,
    from: int,
    to: int,
) -> bool {
    forall|k: int|
        from <= k < to ==> (#[trigger] params[k].encoded(oids) matches Ok(values) && bind_fits(
            Seq::empty(),
            name,
            values,
        ))
}

/// The executions of a chunk bind each parameter set of the chunk once, in the order of the list,
/// and run it.
#[verifier::rlimit(40)]
pub proof fn executions_bind_each_set<P: ToParams>(
    name: Seq<char>,
    params: Seq<P>,
    oids: Seq<u32>,
    from: int,
    to: int,
)
    requires
        from <= to,
        sets_fit(name, params, oids, from, to),
    ensures
        asks(executions(name, params, oids, from, to), set_requests(name, params, oids, from, to)),
    decreases to - from,
{
    let all = set_requests(name, params, oids, from, to);
    if from == to {
        nothing_asks_nothing();
        assert(all =~= Seq::empty());
    } else {
        executions_bind_each_set(name, params, oids, from, to - 1);
        unnamed_fits();
        let values = params[to - 1].encoded(oids)->Ok_0;
        assert(params[to - 1].encoded(oids) is Ok);
        let before = set_requests(name, params, oids, from, to - 1);
        let bind = seq![bind_request(Seq::empty(), name, values)];
        let run = seq![Request::Execute { portal: Seq::empty(), max_rows: 0 }];
        bind_is_read(Seq::empty(), name, values);
        portal_requests_are_read(Seq::empty(), 0);
        asks_in_turn(
            executions(name, params, oids, from, to - 1),
            before,
            bind_frame(Seq::empty(), name, values),
            bind,
        );
        asks_in_turn(
            executions(name, params, oids, from, to - 1) + bind_frame(Seq::empty(), name, values),
            before + bind,
            execute_frame(Seq::empty(), 0),
            run,
        );
        assert(before + bind + run =~= all);
    }
}

/// The failure of a batch is that of the first set in `from..to` that cannot be encoded: all sets
/// before it can, and where there is none, all can.
pub proof fn first_failure_is_the_first<P: ToParams>(
    params: Seq<P>,
    oids: Seq<u32>,
    from: int,
    to: int,
)
    ensures
        match first_failure(params, oids, from, to) {
            Some(i) => from <= i < to && params[i].encoded(oids) is Err && forall|k: int|
                from <= k < i ==> #[trigger] params[k].encoded(oids) is Ok,
            None => forall|k: int| from <= k < to ==> #[trigger] params[k].encoded(oids) is Ok,
        },
    decreases to - from,
{
    if from < to && params[from].encoded(oids) is Ok {
        first_failure_is_the_first(params, oids, from + 1, to);
    }
}

/// What precedes the executions of a chunk for SQL text: its Parse.
pub open spec fn head_requests(statement: StatementRef<'_>, oids: Seq<u32>) -> Seq<Request> {
    match statement {
        StatementRef::Sql(sql) => seq![
            Request::Parse {
                name: Seq::empty(),
                sql: sql@,
                oids: oids.map_values(|o: u32| o as nat),
            },
        ],
        StatementRef::Prepared(_) => Seq::empty(),
    }
}

/// A chunk that [`BatchExec::next_chunk`] sends asks the server, after the Parse of SQL text, to bind
/// and run each set from the first unsent one on, as many as the chunk size allows, and to sync. The
/// sets after it are left for the next chunk.
#[verifier::rlimit(40)]
pub proof fn chunk_asks_for_its_sets<'s, H, P: ToParams>(
    batch: &mut BatchExec<'s>,
    conn: &mut Conn<H>,
    params_list: &[P],
    previous: Result<(), Error>,
    r: BatchNext,
)
    requires
        call_ensures(
            BatchExec::<'s>::next_chunk::<H, P>,
            (batch, conn, params_list, previous),
            r,
        ),
        r is Drive,
        old(batch)@.next <= params_list@.len(),
        old(batch)@.statement matches StatementRef::Sql(sql) ==> parse_fits(
            Seq::empty(),
            sql@,
            old(batch)@.oids,
        ),
        forall|k: int|
            0 <= k < params_list@.len() ==> (#[trigger] params_list@[k].encoded(old(batch)@.oids)
                matches Ok(values) ==> bind_fits(Seq::empty(), old(batch)@.name, values)),
    ensures
        ({
            let b = old(batch)@;
            let end = final(batch)@.next;
            &&& end == b.next + b.chunk_size || (end == params_list@.len() && end <= b.next
                + b.chunk_size)
            &&& only_writes(old(conn)@, final(conn)@)
            &&& r matches BatchNext::Drive { parse } && parse == (b.statement is Sql)
            &&& asks(
                final(conn)@.write_buffer,
                head_requests(b.statement, b.oids) + set_requests(
                    b.name,
                    params_list@,
                    b.oids,
                    b.next as int,
                    end as int,
                ) + seq![Request::Sync],
            )
        }),
{
    let b = old(batch)@;
    let params = params_list@;
    let end = b.chunk_end(params.len());
    first_failure_is_the_first(params, b.oids, b.next as int, end as int);
    let head = head_requests(b.statement, b.oids);
    let sets = set_requests(b.name, params, b.oids, b.next as int, end as int);
    assert(sets_fit(b.name, params, b.oids, b.next as int, end as int)) by {
        assert forall|k: int| b.next <= k < end implies (#[trigger] params[k].encoded(b.oids)
            matches Ok(values) && bind_fits(Seq::empty(), b.name, values)) by {
            assert(params[k].encoded(b.oids) is Ok);
        }
    }
    executions_bind_each_set(b.name, params, b.oids, b.next as int, end as int);
    bare_requests_are_read();
    match b.statement {
        StatementRef::Sql(sql) => parse_is_read(Seq::empty(), sql@, b.oids),
        StatementRef::Prepared(_) => nothing_asks_nothing(),
    }
    let messages = executions(b.name, params, b.oids, b.next as int, end as int);
    asks_in_turn(chunk_head(b.statement, b.oids), head, messages, sets);
    asks_in_turn(
        chunk_head(b.statement, b.oids) + messages,
        head + sets,
        sync_frame(),
        seq![Request::Sync],
    );
}

/// A chunk that fails is not sent: a failure of the previous chunk is handed on, and otherwise it is
/// that of the first set that cannot be encoded, or the connection cannot be used.
pub proof fn failed_chunk_is_not_sent<'s, H, P: ToParams>(
    batch: &mut BatchExec<'s>,
    conn: &mut Conn<H>,
    params_list: &[P],
    previous: Result<(), Error>,
    r: BatchNext,
)
    requires
        call_ensures(
            BatchExec::<'s>::next_chunk::<H, P>,
            (batch, conn, params_list, previous),
            r,
        ),
        old(batch)@.next <= params_list@.len(),
    ensures
        !(r is Drive) ==> final(conn)@.in_progress == old(conn)@.in_progress && final(batch)@.next
            == old(batch)@.next && final(batch)@.over,
        previous matches Err(e) ==> r == BatchNext::Failed(e),
        previous is Ok ==> (r is Finished <==> old(batch)@.next == params_list@.len()),
        previous is Ok && r is Failed ==> (r matches BatchNext::Failed(e) && (e@
            == ErrorView::ConnectionBroken || exists|i: int|
            old(batch)@.next <= i < params_list@.len() && #[trigger] params_list@[i].encoded(
                old(batch)@.oids,
            ) == Err::<Seq<Option<Seq<u8>>>, ErrorView>(e@) && forall|k: int|
                old(batch)@.next <= k < i ==> #[trigger] params_list@[k].encoded(old(batch)@.oids)
                    is Ok)),
{
    let b = old(batch)@;
    let end = b.chunk_end(params_list@.len());
    first_failure_is_the_first(params_list@, b.oids, b.next as int, end as int);
    if let Some(i) = first_failure(params_list@, b.oids, b.next as int, end as int) {
        assert(params_list@[i].encoded(b.oids) is Err);
    }
}

/// A name that is generated from a number: the prefix, and digits that stand for the number.
pub open spec fn numbered(name: Seq<char>, prefix: Seq<char>, n: nat) -> bool {
    &&& name.len() > prefix.len()
    &&& name.take(prefix.len() as int) == prefix
    &&& all_digits(name.skip(prefix.len() as int))
    &&& number_in(name.skip(prefix.len() as int)) == n
}

/// The names of statements and portals are made of their numbers, which can be read back from them.
pub proof fn names_are_numbered(n: nat)
    ensures
        numbered(statement_name(n), "_zero_s_"@, n),
        numbered(portal_name(n), "_zero_p_"@, n),
{
    decimal_reads_back(n);
    let s = "_zero_s_"@;
    assert(statement_name(n).take(s.len() as int) =~= s);
    assert(statement_name(n).skip(s.len() as int) =~= decimal(n));
    let p = "_zero_p_"@;
    assert(portal_name(n).take(p.len() as int) =~= p);
    assert(portal_name(n).skip(p.len() as int) =~= decimal(n));
}

/// [`PreparedStatement::wire_name`] and [`Conn::next_portal_name`] generate such names, and the
/// portals count on.
pub proof fn generated_names_are_numbered<H>(
    stmt: &PreparedStatement,
    name: String,
    conn: &mut Conn<H>,
    portal: String,
)
    requires
        call_ensures(PreparedStatement::wire_name, (stmt,), name),
        call_ensures(Conn::<H>::next_portal_name, (conn,), portal),
        old(conn)@.name_counter < u64::MAX,
    ensures
        numbered(name@, "_zero_s_"@, stmt.idx as nat),
        numbered(portal@, "_zero_p_"@, (old(conn)@.name_counter + 1) as nat),
        final(conn)@ == (ConnView {
            name_counter: (old(conn)@.name_counter + 1) as u64,
            ..old(conn)@
        }),
{
    names_are_numbered(stmt.idx as nat);
    names_are_numbered((old(conn)@.name_counter + 1) as nat);
}

/// A batch begins at the first set. SQL text goes by the types that the first set has of itself and
/// is bound without a name; a prepared statement goes by its own types and its own name.
pub proof fn batch_begins_at_the_first_set<'s, H, S: IntoStatement + ?Sized, P: ToParams>(
    conn: &Conn<H>,
    statement: &'s S,
    params_list: &[P],
    chunk_size: usize,
    r: Result<BatchExec<'s>, Error>,
    plain: Result<BatchExec<'s>, Error>,
)
    requires
        call_ensures(
            Conn::<H>::exec_batch_chunked::<S, P>,
            (conn, statement, params_list, chunk_size),
            r,
        ),
        call_ensures(Conn::<H>::exec_batch::<S, P>, (conn, statement, params_list), plain),
    ensures
        r is Ok <==> conn@.usable(),
        plain is Ok <==> conn@.usable(),
        plain matches Ok(b) ==> b@.chunk_size == 1000 && b@.next == 0,
        r matches Ok(b) ==> b@.next == 0 && !b@.over && b@.statement == statement.statement()
            && b@.chunk_size > 0 && (chunk_size > 0 ==> b@.chunk_size == chunk_size) && (chunk_size
            == 0 ==> b@.chunk_size == 1),
        r matches Ok(b) ==> match statement.statement() {
            StatementRef::Sql(_) => b@.name.len() == 0 && (params_list@.len() > 0 ==> b@.oids
                == params_list@[0].natural()),
            StatementRef::Prepared(stmt) => numbered(b@.name, "_zero_s_"@, stmt.idx as nat)
                && b@.oids == stmt.param_oids@,
        },
{
    if let StatementRef::Prepared(stmt) = statement.statement() {
        names_are_numbered(stmt.idx as nat);
    }
}

/// [`Conn::lowlevel_bind`] asks the server to bind the caller's parameters, in the types that they
/// have of themselves, to this statement as this portal, and to answer at once.
pub proof fn lowlevel_bind_asks<H, P: ToParams>(
    conn: &mut Conn<H>,
    portal: &str,
    statement: &str,
    params: &P,
    values: Seq<Option<Seq<u8>>>,
    r: Result<ReplyExchange, Error>,
)
    requires
        call_ensures(Conn::<H>::lowlevel_bind::<P>, (conn, portal, statement, params), r),
        old(conn)@.usable(),
        params.encoded(params.natural()) == Ok::<Seq<Option<Seq<u8>>>, ErrorView>(values),
        bind_fits(portal@, statement@, values),
    ensures
        r is Ok,
        only_writes(old(conn)@, final(conn)@),
        asks(
            final(conn)@.write_buffer,
            seq![bind_request(portal@, statement@, values), Request::Flush],
        ),
{
    bind_is_read(portal@, statement@, values);
    bare_requests_are_read();
    let bind = seq![bind_request(portal@, statement@, values)];
    asks_in_turn(
        bind_frame(portal@, statement@, values),
        bind,
        flush_frame(),
        seq![Request::Flush],
    );
    assert(bind + seq![Request::Flush] =~= seq![
        bind_request(portal@, statement@, values),
        Request::Flush,
    ]);
}

/// The messages that fetch from a portal ask for its columns, then for at most `max_rows` of its
/// rows, and for an answer at once.
pub proof fn fetch_is_read(portal: Seq<char>, max_rows: u32)
    requires
        portal_fits(portal),
    ensures
        asks(
            describe_portal_frame(portal) + execute_frame(portal, max_rows) + flush_frame(),
            seq![
                Request::DescribePortal { portal },
                Request::Execute { portal, max_rows: max_rows as nat },
                Request::Flush,
            ],
        ),
{
    portal_requests_are_read(portal, max_rows);
    bare_requests_are_read();
    let d = seq![Request::DescribePortal { portal }];
    let x = seq![Request::Execute { portal, max_rows: max_rows as nat }];
    asks_in_turn(describe_portal_frame(portal), d, execute_frame(portal, max_rows), x);
    asks_in_turn(
        describe_portal_frame(portal) + execute_frame(portal, max_rows),
        d + x,
        flush_frame(),
        seq![Request::Flush],
    );
    assert(d + x + seq![Request::Flush] =~= seq![
        Request::DescribePortal { portal },
        Request::Execute { portal, max_rows: max_rows as nat },
        Request::Flush,
    ]);
}

/// [`Conn::lowlevel_execute`] fetches at most `max_rows` rows of the portal that it is given.
pub proof fn lowlevel_execute_asks<H>(
    conn: &mut Conn<H>,
    portal: &str,
    max_rows: u32,
    r: Result<ExecuteExchange, Error>,
)
    requires
        call_ensures(Conn::<H>::lowlevel_execute, (conn, portal, max_rows), r),
        old(conn)@.usable(),
        portal_fits(portal@),
    ensures
        r is Ok,
        only_writes(old(conn)@, final(conn)@),
        asks(
            final(conn)@.write_buffer,
            seq![
                Request::DescribePortal { portal: portal@ },
                Request::Execute { portal: portal@, max_rows: max_rows as nat },
                Request::Flush,
            ],
        ),
{
    fetch_is_read(portal@, max_rows);
}

/// [`UnnamedPortal::exec`] fetches at most `max_rows` rows of the unnamed portal.
pub proof fn unnamed_portal_asks<'a, H>(
    portal: &mut UnnamedPortal<'a, H>,
    max_rows: u32,
    r: Result<ExecuteExchange, Error>,
)
    requires
        call_ensures(UnnamedPortal::<'a, H>::exec, (portal, max_rows), r),
        old(portal).conn@.ready(),
    ensures
        r is Ok,
        only_writes(old(portal).conn@, final(portal).conn@),
        asks(
            final(portal).conn@.write_buffer,
            seq![
                Request::DescribePortal { portal: Seq::empty() },
                Request::Execute { portal: Seq::empty(), max_rows: max_rows as nat },
                Request::Flush,
            ],
        ),
{
    unnamed_fits();
    fetch_is_read(Seq::empty(), max_rows);
}

/// [`NamedPortal::exec`] fetches at most `max_rows` rows of the portal of that name, and
/// [`NamedPortal::close`] closes it.
pub proof fn named_portal_asks<'tx, H>(
    portal: &NamedPortal<'tx>,
    name: &str,
    conn: &mut Conn<H>,
    max_rows: u32,
    r: Result<ExecuteExchange, Error>,
    closing: &mut Conn<H>,
    closed: Result<ReplyExchange, Error>,
)
    requires
        call_ensures(NamedPortal::<'tx>::name, (portal,), name),
        call_ensures(NamedPortal::<'tx>::exec::<H>, (portal, conn, max_rows), r),
        call_ensures(NamedPortal::<'tx>::close::<H>, (portal, closing), closed),
        old(conn)@.usable(),
        old(closing)@.usable(),
        portal_fits(name@),
    ensures
        r is Ok,
        closed is Ok,
        only_writes(old(conn)@, final(conn)@),
        only_writes(old(closing)@, final(closing)@),
        asks(
            final(conn)@.write_buffer,
            seq![
                Request::DescribePortal { portal: name@ },
                Request::Execute { portal: name@, max_rows: max_rows as nat },
                Request::Flush,
            ],
        ),
        asks(
            final(closing)@.write_buffer,
            seq![Request::ClosePortal { portal: name@ }, Request::Flush],
        ),
{
    fetch_is_read(name@, max_rows);
    close_is_read(name@);
}

/// The messages that close a portal ask for that, and for an answer at once.
pub proof fn close_is_read(portal: Seq<char>)
    requires
        portal_fits(portal),
    ensures
        asks(
            close_portal_frame(portal) + flush_frame(),
            seq![Request::ClosePortal { portal }, Request::Flush],
        ),
{
    portal_requests_are_read(portal, 0);
    bare_requests_are_read();
    let c = seq![Request::ClosePortal { portal }];
    asks_in_turn(close_portal_frame(portal), c, flush_frame(), seq![Request::Flush]);
    assert(c + seq![Request::Flush] =~= seq![Request::ClosePortal { portal }, Request::Flush]);
}

/// [`Conn::lowlevel_close_portal`] closes the portal that it is given, [`Conn::lowlevel_sync`] and
/// [`Conn::lowlevel_flush`] send Sync and Flush, and [`Conn::close`] ends the session.
pub proof fn lowlevel_requests_ask<H>(
    closing: &mut Conn<H>,
    portal: &str,
    closed: Result<ReplyExchange, Error>,
    syncing: &mut Conn<H>,
    synced: Result<SyncExchange, Error>,
    flushing: &mut Conn<H>,
    flushed: Result<(), Error>,
    ending: &mut Conn<H>,
    ended: Result<(), Error>,
)
    requires
        call_ensures(Conn::<H>::lowlevel_close_portal, (closing, portal), closed),
        call_ensures(Conn::<H>::lowlevel_sync, (syncing,), synced),
        call_ensures(Conn::<H>::lowlevel_flush, (flushing,), flushed),
        call_ensures(Conn::<H>::close, (ending,), ended),
        old(closing)@.usable(),
        old(syncing)@.usable(),
        old(flushing)@.usable(),
        old(ending)@.usable(),
        portal_fits(portal@),
    ensures
        closed is Ok && synced is Ok && flushed is Ok && ended is Ok,
        only_writes(old(closing)@, final(closing)@),
        only_writes(old(syncing)@, final(syncing)@),
        only_writes(old(flushing)@, final(flushing)@),
        final(ending)@ == (ConnView { write_buffer: final(ending)@.write_buffer, ..old(ending)@ }),
        asks(
            final(closing)@.write_buffer,
            seq![Request::ClosePortal { portal: portal@ }, Request::Flush],
        ),
        asks(final(syncing)@.write_buffer, seq![Request::Sync]),
        asks(final(flushing)@.write_buffer, seq![Request::Flush]),
        asks(final(ending)@.write_buffer, seq![Request::Terminate]),
{
    close_is_read(portal@);
    bare_requests_are_read();
}

/// Inside an open scope, a Bind, an Execute, a Close and a Sync ask for the same as outside of one.
pub proof fn scopes_ask_the_same<H, P: ToParams>(
    a: &mut Conn<H>,
    portal: &str,
    statement: &str,
    params: &P,
    values: Seq<Option<Seq<u8>>>,
    bound: Result<ReplyExchange, Error>,
    b: &mut Conn<H>,
    max_rows: u32,
    executed: Result<ExecuteExchange, Error>,
    c: &mut Conn<H>,
    closed: Result<ReplyExchange, Error>,
    d: &mut Conn<H>,
    synced: Result<SyncExchange, Error>,
)
    requires
        call_ensures(Conn::<H>::bind_inner::<P>, (a, portal, statement, params), bound),
        call_ensures(Conn::<H>::execute_portal_inner, (b, portal, max_rows), executed),
        call_ensures(Conn::<H>::close_portal_inner, (c, portal), closed),
        call_ensures(Conn::<H>::sync_inner, (d,), synced),
        params.encoded(params.natural()) == Ok::<Seq<Option<Seq<u8>>>, ErrorView>(values),
        bind_fits(portal@, statement@, values),
        portal_fits(portal@),
    ensures
        bound is Ok <==> old(a)@.ready(),
        executed is Ok <==> old(b)@.ready(),
        closed is Ok <==> old(c)@.ready(),
        synced is Ok <==> old(d)@.ready(),
        bound matches Ok(x) ==> x.expects() == 50 && only_writes(old(a)@, final(a)@),
        executed matches Ok(x) ==> x.columns().len() == 0 && only_writes(old(b)@, final(b)@),
        closed matches Ok(x) ==> x.expects() == 51 && only_writes(old(c)@, final(c)@),
        synced matches Ok(x) ==> x@ is None && only_writes(old(d)@, final(d)@),
        asks(
            final(a)@.write_buffer,
            seq![bind_request(portal@, statement@, values), Request::Flush],
        ),
        asks(
            final(b)@.write_buffer,
            seq![
                Request::DescribePortal { portal: portal@ },
                Request::Execute { portal: portal@, max_rows: max_rows as nat },
                Request::Flush,
            ],
        ),
        asks(
            final(c)@.write_buffer,
            seq![Request::ClosePortal { portal: portal@ }, Request::Flush],
        ),
        asks(final(d)@.write_buffer, seq![Request::Sync]),
{
    bind_is_read(portal@, statement@, values);
    bare_requests_are_read();
    fetch_is_read(portal@, max_rows);
    close_is_read(portal@);
    let bind = seq![bind_request(portal@, statement@, values)];
    asks_in_turn(
        bind_frame(portal@, statement@, values),
        bind,
        flush_frame(),
        seq![Request::Flush],
    );
    assert(bind + seq![Request::Flush] =~= seq![
        bind_request(portal@, statement@, values),
        Request::Flush,
    ]);
}

/// An unnamed portal whose connection cannot go on is refused, and begins nothing. Parameters that
/// cannot be encoded are the failure of a Bind, and begin nothing either.
pub proof fn nothing_begins_in_vain<'a, H, P: ToParams>(
    portal: &mut UnnamedPortal<'a, H>,
    max_rows: u32,
    r: Result<ExecuteExchange, Error>,
    conn: &mut Conn<H>,
    name: &str,
    statement: &str,
    params: &P,
    bound: Result<ReplyExchange, Error>,
)
    requires
        call_ensures(UnnamedPortal::<'a, H>::exec, (portal, max_rows), r),
        call_ensures(Conn::<H>::lowlevel_bind::<P>, (conn, name, statement, params), bound),
        !old(portal).conn@.ready(),
        old(conn)@.usable(),
        params.encoded(params.natural()) is Err,
    ensures
        r matches Err(e) && e@ == ErrorView::ConnectionBroken,
        final(portal).conn@.in_progress == old(portal).conn@.in_progress,
        final(portal).conn@.broken == old(portal).conn@.broken,
        bound matches Err(e) && params.encoded(params.natural()) == Err::<
            Seq<Option<Seq<u8>>>,
            ErrorView,
        >(e@),
        final(conn)@.usable(),
{
}

} // verus!
