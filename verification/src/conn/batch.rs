//! Executing one statement with many parameter sets, a chunk at a time.

use vstd::prelude::*;
use vstd::string::*;

use crate::conn::{Conn, ConnView};
use crate::error::{outcome, Error, ErrorView};
use crate::params::{copy_oids, ToParams};
use crate::protocol::frontend::{
    bind_frame, execute_frame, parse_frame, sync_frame, write_bind, write_execute, write_parse,
    write_sync,
};
use crate::statement::{statement_name, IntoStatement, StatementRef};

verus! {

/// How many parameter sets go into a chunk where the caller does not say.
pub const DEFAULT_CHUNK_SIZE: usize = 1000;

/// A batch that is being executed.
pub struct BatchExec<'s> {
    statement: StatementRef<'s>,
    name: String,
    oids: Vec<u32>,
    chunk_size: usize,
    next: usize,
    over: bool,
    /// How many chunks were sent.
    chunks: Ghost<nat>,
}

/// A batch as contracts speak of it.
pub struct BatchView<'s> {
    pub statement: StatementRef<'s>,
    /// The name of the statement on the server, empty for SQL text.
    pub name: Seq<char>,
    /// The parameter types that every parameter set is encoded for.
    pub oids: Seq<u32>,
    pub chunk_size: nat,
    /// The first parameter set that has not been sent.
    pub next: nat,
    /// How many chunks, and with them Syncs, were sent.
    pub chunks: nat,
    /// The batch has come to its end, or has failed.
    pub over: bool,
}

impl<'s> View for BatchExec<'s> {
    type V = BatchView<'s>;

    closed spec fn view(&self) -> BatchView<'s> {
        BatchView {
            statement: self.statement,
            name: self.name@,
            oids: self.oids@,
            chunk_size: self.chunk_size as nat,
            next: self.next as nat,
            chunks: self.chunks@,
            over: self.over,
        }
    }
}

/// The name that Bind gives for a statement.
pub open spec fn bind_name(statement: StatementRef<'_>) -> Seq<char> {
    match statement {
        StatementRef::Sql(_) => Seq::empty(),
        StatementRef::Prepared(stmt) => statement_name(stmt.idx as nat),
    }
}

/// The parameter types for a statement and a list of parameter sets: those of the prepared
/// statement, or those that the first set has of itself.
pub open spec fn batch_oids<P: ToParams>(statement: StatementRef<'_>, params: Seq<P>) -> Seq<u32> {
    match statement {
        StatementRef::Sql(_) => if params.len() > 0 {
            params[0].natural()
        } else {
            Seq::empty()
        },
        StatementRef::Prepared(stmt) => stmt.param_oids@,
    }
}

/// The first set in `from..to` that cannot be encoded.
pub open spec fn first_failure<P: ToParams>(
    params: Seq<P>,
    oids: Seq<u32>,
    from: int,
    to: int,
) -> Option<int>
    decreases to - from,
{
    if from >= to {
        None
    } else if params[from].encoded(oids) is Err {
        Some(from)
    } else {
        first_failure(params, oids, from + 1, to)
    }
}

/// Bind and Execute for each of the sets in `from..to`.
pub open spec fn executions<P: ToParams>(
    name: Seq<char>,
    params: Seq<P>,
    oids: Seq<u32>,
    from: int,
    to: int,
) -> Seq<u8>
    decreases to - from,
{
    if from >= to {
        Seq::empty()
    } else {
        executions(name, params, oids, from, to - 1) + bind_frame(
            Seq::empty(),
            name,
            params[to - 1].encoded(oids)->Ok_0,
        ) + execute_frame(Seq::empty(), 0)
    }
}

/// What precedes the executions of a chunk: Parse for SQL text.
pub open spec fn chunk_head(statement: StatementRef<'_>, oids: Seq<u32>) -> Seq<u8> {
    match statement {
        StatementRef::Sql(sql) => parse_frame(Seq::empty(), sql@, oids),
        StatementRef::Prepared(_) => Seq::empty(),
    }
}

impl<'s> BatchView<'s> {
    /// Where the next chunk ends, in a list of `length` sets.
    pub open spec fn chunk_end(self, length: nat) -> nat {
        if length - self.next <= self.chunk_size {
            length
        } else {
            self.next + self.chunk_size
        }
    }

    /// The chunks that were sent are the first ones of a list of `length` sets, and none was empty.
    pub open spec fn in_chunks(self, length: nat) -> bool {
        &&& self.chunk_size > 0
        &&& self.next == chunk_start(self.chunks, self.chunk_size, length)
        &&& self.chunks > 0 ==> (self.chunks - 1) * self.chunk_size < length
    }

    /// The messages of the sets in `next..to`.
    pub open spec fn chunk_to<P: ToParams>(self, params: Seq<P>, to: int) -> Seq<u8> {
        chunk_head(self.statement, self.oids) + executions(
            self.name,
            params,
            self.oids,
            self.next as int,
            to,
        )
    }
}

/// What comes next in a batch.
#[derive(Debug)]
pub enum BatchNext {
    /// All sets have been sent.
    Finished,
    /// Drive a machine that awaits the answers to a chunk, ParseComplete first or not.
    Drive { parse: bool },
    /// The batch fails.
    Failed(Error),
}

impl<'s> BatchExec<'s> {
    /// Takes the outcome of the previous chunk, success at first, and goes on with the next one:
    /// fills the write buffer with it and begins its exchange.
    ///
    /// A chunk that fails is the end of the batch. A set that cannot be encoded fails the batch
    /// before anything of its chunk is sent.
    pub fn next_chunk<H, P: ToParams>(
        &mut self,
        conn: &mut Conn<H>,
        params_list: &[P],
        previous: Result<(), Error>,
    ) -> (r: BatchNext)
        requires
            !old(self)@.over,
            old(self)@.next <= params_list@.len(),
        ensures
            final(self)@.over == !(r is Drive),
            old(self)@.in_chunks(params_list@.len()) ==> final(self)@.in_chunks(params_list@.len()),
            final(self)@ == (BatchView {
                over: final(self)@.over,
                next: if r is Drive {
                    old(self)@.chunk_end(params_list@.len())
                } else {
                    old(self)@.next
                },
                chunks: if r is Drive {
                    old(self)@.chunks + 1
                } else {
                    old(self)@.chunks
                },
                ..old(self)@
            }),
            ({
                let b = old(self)@;
                let v = old(conn)@;
                let end = b.chunk_end(params_list@.len());
                match previous {
                    Err(e) => r == BatchNext::Failed(e) && final(conn)@ == (ConnView {
                        broken: v.broken || e@.breaks(),
                        ..v
                    }),
                    Ok(()) => if b.next == params_list@.len() {
                        r is Finished && final(conn)@ == v
                    } else {
                        match first_failure(params_list@, b.oids, b.next as int, end as int) {
                            Some(i) => {
                                &&& r matches BatchNext::Failed(e)
                                    && params_list@[i].encoded(b.oids)->Err_0 == e@
                                    && final(conn)@ == (ConnView {
                                    write_buffer: b.chunk_to(params_list@, i),
                                    broken: v.broken || e@.breaks(),
                                    ..v
                                })
                            },
                            None => {
                                let sent = ConnView {
                                    write_buffer: b.chunk_to(params_list@, end as int)
                                        + sync_frame(),
                                    ..v
                                };
                                if v.ready() {
                                    r == (BatchNext::Drive { parse: b.statement is Sql })
                                        && final(conn)@ == (ConnView { in_progress: true, ..sent })
                                } else {
                                    (r matches BatchNext::Failed(e) && e@
                                        == ErrorView::ConnectionBroken) && final(conn)@
                                        == (ConnView { broken: true, ..sent })
                                }
                            },
                        }
                    },
                }
            }),
    {
        if let Err(e) = previous {
            return self.fail(conn, e);
        }
        if self.next == params_list.len() {
            self.over = true;
            return BatchNext::Finished;
        }
        let end: usize = if params_list.len() - self.next <= self.chunk_size {
            params_list.len()
        } else {
            self.next + self.chunk_size
        };
        let ghost b = self@;
        let ghost params = params_list@;
        proof {
            if b.in_chunks(params.len()) {
                chunks_cover(b, b.chunks, b.next, params.len());
            }
        }
        let buf = conn.write_buffer_mut();
        buf.clear();
        proof {
            reveal_strlit("");
            assert(""@ =~= Seq::<char>::empty());
        }
        let parse = match self.statement {
            StatementRef::Sql(sql) => {
                write_parse(buf, "", sql, self.oids.as_slice());
                true
            },
            StatementRef::Prepared(_) => false,
        };
        let mut i: usize = self.next;
        assert(buf@ =~= b.chunk_to(params, i as int));
        while i < end
            invariant
                b == self@,
                b == old(self)@,
                previous is Ok,
                b.next < params.len(),
                end == b.chunk_end(params.len()),
                b.oids == self.oids@,
                b.name == self.name@,
                b.next == self.next,
                params == params_list@,
                self.next <= i <= end <= params_list@.len(),
                ""@ == Seq::<char>::empty(),
                buf@ == b.chunk_to(params, i as int),
                first_failure(params, b.oids, b.next as int, end as int) == first_failure(
                    params,
                    b.oids,
                    i as int,
                    end as int,
                ),
                // The buffer is the one of the connection.
                after_borrow(conn)@ == (ConnView { write_buffer: final(buf)@, ..old(conn)@ }),
            decreases end - i,
        {
            if let Err(e) = write_bind(
                buf,
                "",
                self.name.as_str(),
                &params_list[i],
                self.oids.as_slice(),
            ) {
                return self.fail(conn, e);
            }
            write_execute(buf, "", 0);
            i = i + 1;
            assert(buf@ =~= b.chunk_to(params, i as int));
        }
        write_sync(buf);
        match conn.begin_exchange() {
            Ok(()) => {
                self.next = end;
                self.chunks = Ghost(self.chunks@ + 1);
                BatchNext::Drive { parse }
            },
            Err(e) => self.fail(conn, e),
        }
    }

    fn fail<H>(&mut self, conn: &mut Conn<H>, e: Error) -> (r: BatchNext)
        ensures
            r == BatchNext::Failed(e),
            final(self)@ == (BatchView { over: true, ..old(self)@ }),
            final(conn)@ == (ConnView {
                broken: old(conn)@.broken || e@.breaks(),
                ..old(conn)@
            }),
    {
        self.over = true;
        match conn.conclude::<()>(Err(e)) {
            Err(e) => BatchNext::Failed(e),
            Ok(()) => BatchNext::Finished,
        }
    }
}

impl<H> Conn<H> {
    /// Execute a statement with multiple parameter sets in a batch.
    pub fn exec_batch<'s, S: IntoStatement + ?Sized, P: ToParams>(
        &self,
        statement: &'s S,
        params_list: &[P],
    ) -> (r: Result<BatchExec<'s>, Error>)
        ensures
            self@.usable() ==> (r matches Ok(b) && b@ == (BatchView {
                statement: statement.statement(),
                name: bind_name(statement.statement()),
                oids: batch_oids(statement.statement(), params_list@),
                chunk_size: DEFAULT_CHUNK_SIZE as nat,
                next: 0,
                chunks: 0,
                over: false,
            }) && b@.in_chunks(params_list@.len())),
            !self@.usable() ==> outcome(r) == Err::<BatchExec<'s>, _>(ErrorView::ConnectionBroken),
    {
        self.exec_batch_chunked(statement, params_list, DEFAULT_CHUNK_SIZE)
    }

    /// Execute a statement with multiple parameter sets in a batch with custom chunk size.
    pub fn exec_batch_chunked<'s, S: IntoStatement + ?Sized, P: ToParams>(
        &self,
        statement: &'s S,
        params_list: &[P],
        chunk_size: usize,
    ) -> (r: Result<BatchExec<'s>, Error>)
        ensures
            self@.usable() ==> (r matches Ok(b) && b@ == (BatchView {
                statement: statement.statement(),
                name: bind_name(statement.statement()),
                oids: batch_oids(statement.statement(), params_list@),
                chunk_size: if chunk_size == 0 {
                    1
                } else {
                    chunk_size as nat
                },
                next: 0,
                chunks: 0,
                over: false,
            }) && b@.in_chunks(params_list@.len())),
            !self@.usable() ==> outcome(r) == Err::<BatchExec<'s>, _>(ErrorView::ConnectionBroken),
    {
        if let Err(e) = self.ensure_usable() {
            return Err(e);
        }
        let chunk_size: usize = if chunk_size == 0 {
            1
        } else {
            chunk_size
        };
        let statement = statement.statement_ref();
        let (oids, name) = match statement {
            StatementRef::Sql(_) => {
                let oids: Vec<u32> = if params_list.len() > 0 {
                    params_list[0].natural_oids()
                } else {
                    Vec::new()
                };
                (oids, String::new())
            },
            StatementRef::Prepared(stmt) => (copy_oids(stmt.param_oids.as_slice()), stmt.wire_name()),
        };
        let b = BatchExec {
            statement,
            name,
            oids,
            chunk_size,
            next: 0,
            over: false,
            chunks: Ghost(0),
        };
        assert(b.name@ =~= bind_name(statement));
        assert(b.oids@ =~= batch_oids(statement, params_list@));
        Ok(b)
    }
}

/// Where the chunk with number `k` begins.
pub open spec fn chunk_start(k: nat, chunk_size: nat, length: nat) -> nat {
    if k * chunk_size <= length {
        k * chunk_size
    } else {
        length
    }
}

/// The chunks of a batch follow one another without gap or overlap: from the beginning of a
/// chunk, the next chunk ends where the following one begins; the first begins at the first
/// parameter set; and the set with number `i` is in the chunk with number `i / chunk_size`.
pub proof fn chunks_cover(b: BatchView<'_>, k: nat, i: nat, length: nat)
    requires
        b.chunk_size > 0,
        b.next == chunk_start(k, b.chunk_size, length),
        i < length,
    ensures
        chunk_start(0, b.chunk_size, length) == 0,
        b.chunk_end(length) == chunk_start(k + 1, b.chunk_size, length),
        b.next < length ==> b.next < b.chunk_end(length),
        chunk_start(i / b.chunk_size, b.chunk_size, length) <= i < chunk_start(
            i / b.chunk_size + 1,
            b.chunk_size,
            length,
        ),
{
    let c = b.chunk_size as int;
    assert((k + 1) * c == k * c + c) by (nonlinear_arith);
    assert(0 * c == 0) by (nonlinear_arith);
    let q = i as int / c;
    vstd::arithmetic::div_mod::lemma_fundamental_div_mod(i as int, c);
    vstd::arithmetic::div_mod::lemma_mod_bound(i as int, c);
    assert(c * q == q * c) by (nonlinear_arith);
    assert((q + 1) * c == q * c + c) by (nonlinear_arith);
}

/// A batch that has sent all of its sets has sent one Sync for each chunk: as many as the length of
/// the list divided by the chunk size, rounded up, so none for an empty list.
pub proof fn finished_batch_syncs(b: BatchView<'_>, length: nat)
    requires
        b.in_chunks(length),
        b.next == length,
    ensures
        b.chunks == (length + b.chunk_size - 1) / b.chunk_size as int,
        length == 0 ==> b.chunks == 0,
{
    let c = b.chunk_size as int;
    let k = b.chunks as int;
    let n = length as int;
    assert((k - 1) * c == k * c - c) by (nonlinear_arith);
    if length == 0 {
        assert(k > 0 ==> (k - 1) * c >= 0) by (nonlinear_arith)
            requires
                c > 0,
        ;
        assert(k == 0);
        assert(0 * c == 0);
    }
    let rest = n + c - 1 - k * c;
    assert(0 <= rest < c);
    assert(n + c - 1 == c * k + rest) by (nonlinear_arith)
        requires
            rest == n + c - 1 - k * c,
    ;
    vstd::arithmetic::div_mod::lemma_fundamental_div_mod_converse(n + c - 1, c, k, rest);
}

} // verus!
