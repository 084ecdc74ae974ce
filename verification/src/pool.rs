//! A pool of idle connections.

use vstd::prelude::*;

use crate::conn::drive::Action;
use crate::conn::{Conn, ConnView};
use crate::error::{outcome, Error, ErrorView};
use crate::types::{Opts, TransactionStatus};

verus! {

/// What makes a connection forget its session before it becomes idle.
pub const RESET: &'static str = "DISCARD ALL";

/// A connection with its transport.
pub struct Session<T, H> {
    pub transport: T,
    pub conn: Conn<H>,
}

/// A pool of idle connections.
pub struct Pool<T, H> {
    opts: Opts,
    conns: Vec<Session<T, H>>,
    max_idle: usize,
}

/// A pool as contracts speak of it.
pub struct PoolView<T, H> {
    /// The options for new connections.
    pub opts: Opts,
    /// The idle connections, the one that became idle last at the end.
    pub idle: Seq<Session<T, H>>,
    /// How many connections may be idle.
    pub max_idle: nat,
}

impl<T, H> PoolView<T, H> {
    /// No more connections are idle than may be.
    pub open spec fn bounded(self) -> bool {
        self.idle.len() <= self.max_idle
    }

    /// Every idle connection can be used.
    pub open spec fn all_usable(self) -> bool {
        forall|i: int| 0 <= i < self.idle.len() ==> (#[trigger] self.idle[i]).conn@.usable()
    }

    /// A connection that was reset becomes idle, unless there are enough.
    pub open spec fn with(self, session: Session<T, H>) -> PoolView<T, H> {
        PoolView {
            idle: if self.idle.len() < self.max_idle {
                self.idle.push(session)
            } else {
                self.idle
            },
            ..self
        }
    }

    /// The idle connection to try next was taken.
    pub open spec fn without_last(self) -> PoolView<T, H> {
        PoolView { idle: self.idle.drop_last(), ..self }
    }
}

impl<T, H> View for Pool<T, H> {
    type V = PoolView<T, H>;

    closed spec fn view(&self) -> PoolView<T, H> {
        PoolView { opts: self.opts, idle: self.conns@, max_idle: self.max_idle as nat }
    }
}

/// A connection that was taken from a pool.
pub struct PooledConn<T, H> {
    session: Session<T, H>,
}

impl<T, H> PooledConn<T, H> {
    /// The connection.
    pub closed spec fn held(&self) -> Session<T, H> {
        self.session
    }

    /// The connection.
    pub fn deref(&self) -> (r: &Session<T, H>)
        ensures
            *r == self.held(),
    {
        &self.session
    }

    /// The connection, to be used.
    pub fn deref_mut(&mut self) -> (r: &mut Session<T, H>)
        ensures
            *r == old(self).held(),
            final(self).held() == *final(r),
    {
        &mut self.session
    }

    /// The connection, to be given back.
    pub fn into_session(self) -> (r: Session<T, H>)
        ensures
            r == self.held(),
    {
        self.session
    }
}

/// What has come out of the last action of a search for a connection.
pub enum GetOutcome<T, H> {
    /// Nothing has been done yet.
    Begin,
    /// The idle connection has answered the ping, or has not.
    Pinged(Session<T, H>, Result<(), Error>),
    /// A new connection was made, or could not be.
    Connected(Result<Session<T, H>, Error>),
}

/// What has to be done next in a search for a connection.
pub enum GetNext<T, H> {
    /// Ping this idle connection.
    Ping(Session<T, H>),
    /// Make a new connection.
    Connect,
    /// Nothing; the search is over.
    Done(Result<PooledConn<T, H>, Error>),
}

/// What has to be done next, with its contents as mathematical values.
pub enum GetNextView<T, H> {
    Ping(Session<T, H>),
    Connect,
    Done(Result<Session<T, H>, ErrorView>),
}

impl<T, H> View for GetNext<T, H> {
    type V = GetNextView<T, H>;

    open spec fn view(&self) -> GetNextView<T, H> {
        match self {
            GetNext::Ping(session) => GetNextView::Ping(*session),
            GetNext::Connect => GetNextView::Connect,
            GetNext::Done(Ok(pooled)) => GetNextView::Done(Ok(pooled.held())),
            GetNext::Done(Err(e)) => GetNextView::Done(Err(e@)),
        }
    }
}

impl<T, H> PoolView<T, H> {
    /// The connection that became idle last is tried next; a new one is made where none is idle.
    pub open spec fn next_candidate(self) -> (PoolView<T, H>, GetNextView<T, H>) {
        if self.idle.len() > 0 {
            (self.without_last(), GetNextView::Ping(self.idle.last()))
        } else {
            (self, GetNextView::Connect)
        }
    }

    /// What follows an outcome. A connection that does not answer is dropped.
    pub open spec fn get_step(self, last: GetOutcome<T, H>) -> (
        PoolView<T, H>,
        GetNextView<T, H>,
    ) {
        match last {
            GetOutcome::Begin => self.next_candidate(),
            GetOutcome::Pinged(_, Err(_)) => self.next_candidate(),
            GetOutcome::Pinged(session, Ok(())) => (self, GetNextView::Done(Ok(session))),
            GetOutcome::Connected(connected) => (self, GetNextView::Done(outcome(connected))),
        }
    }
}

impl<T, H> Pool<T, H> {
    /// A pool without connections.
    pub fn new(opts: Opts) -> (r: Self)
        ensures
            r@ == (PoolView {
                opts,
                idle: Seq::<Session<T, H>>::empty(),
                max_idle: opts.pool_max_idle_conn as nat,
            }),
    {
        let max_idle: usize = opts.pool_max_idle_conn;
        Pool { opts, conns: Vec::new(), max_idle }
    }

    /// The options for new connections.
    pub fn opts(&self) -> (r: &Opts)
        ensures
            *r == self@.opts,
    {
        &self.opts
    }

    /// Takes the outcome of the last action of a search for a connection, and answers with the next
    /// one.
    pub fn get(&mut self, last: GetOutcome<T, H>) -> (n: GetNext<T, H>)
        ensures
            (final(self)@, n@) == old(self)@.get_step(last),
    {
        match last {
            GetOutcome::Begin => self.next_candidate(),
            GetOutcome::Pinged(_, Err(_)) => self.next_candidate(),
            GetOutcome::Pinged(session, Ok(())) => GetNext::Done(Ok(PooledConn { session })),
            GetOutcome::Connected(Ok(session)) => GetNext::Done(Ok(PooledConn { session })),
            GetOutcome::Connected(Err(e)) => GetNext::Done(Err(e)),
        }
    }

    fn next_candidate(&mut self) -> (n: GetNext<T, H>)
        ensures
            (final(self)@, n@) == old(self)@.next_candidate(),
    {
        match self.conns.pop() {
            Some(session) => GetNext::Ping(session),
            None => GetNext::Connect,
        }
    }

    /// Takes a connection back, to be reset. One that is marked unusable is dropped.
    pub fn check_in(&self, session: Session<T, H>) -> (r: Option<Session<T, H>>)
        ensures
            r == (if session.conn@.usable() {
                Some(session)
            } else {
                None
            }),
    {
        if session.conn.is_broken() {
            return None;
        }
        Some(session)
    }

    /// Takes whether a connection was reset. It becomes idle if it was, and if not enough
    /// connections are idle; else it is dropped.
    pub fn reset(&mut self, session: Session<T, H>, answer: Result<(), Error>)
        ensures
            final(self)@ == (if answer is Ok {
                old(self)@.with(session)
            } else {
                old(self)@
            }),
    {
        if answer.is_err() {
            return;
        }
        if self.conns.len() < self.max_idle {
            self.conns.push(session);
        }
    }
}

/// The pool and the next action after a search has begun and has come to these outcomes.
pub open spec fn get_course<T, H>(pool: PoolView<T, H>, outcomes: Seq<GetOutcome<T, H>>) -> (
    PoolView<T, H>,
    GetNextView<T, H>,
)
    decreases outcomes.len(),
{
    if outcomes.len() == 0 {
        pool.get_step(GetOutcome::Begin)
    } else {
        get_course(pool, outcomes.drop_last()).0.get_step(outcomes.last())
    }
}

/// None of the connections that were pinged has answered.
pub open spec fn none_answers<T, H>(outcomes: Seq<GetOutcome<T, H>>) -> bool {
    forall|i: int|
        0 <= i < outcomes.len() ==> (#[trigger] outcomes[i] matches GetOutcome::Pinged(_, answer)
            && answer is Err)
}

proof fn search_goes_backwards<T, H>(pool: PoolView<T, H>, dead: Seq<GetOutcome<T, H>>)
    requires
        none_answers(dead),
        dead.len() <= pool.idle.len(),
    ensures
        ({
            let left = pool.idle.len() - dead.len();
            get_course(pool, dead) == if left > 0 {
                (
                    PoolView { idle: pool.idle.take(left - 1), ..pool },
                    GetNextView::Ping(pool.idle[left - 1]),
                )
            } else {
                (PoolView { idle: pool.idle.take(0), ..pool }, GetNextView::Connect)
            }
        }),
    decreases dead.len(),
{
    if dead.len() == 0 {
        if pool.idle.len() > 0 {
            assert(pool.idle.drop_last() =~= pool.idle.take(pool.idle.len() - 1));
        } else {
            assert(pool.idle =~= pool.idle.take(0));
        }
    } else {
        assert forall|i: int| 0 <= i < dead.drop_last().len() implies (
        #[trigger] dead.drop_last()[i] matches GetOutcome::Pinged(_, answer) && answer is Err) by {
            assert(dead[i] == dead.drop_last()[i]);
        }
        search_goes_backwards(pool, dead.drop_last());
        assert(dead[dead.len() - 1] == dead.last());
        let left = pool.idle.len() - dead.len();
        let before = pool.idle.take(left);
        if left > 0 {
            assert(before.drop_last() =~= pool.idle.take(left - 1));
            assert(before.last() == pool.idle[left - 1]);
        }
    }
}

/// A search hands out the last of the idle connections that answers. `dead` are the outcomes of the
/// pings so far, none of them answered: those connections, which became idle after the one that
/// answers, are dropped. The connections before it stay idle as they are. `session` is the connection
/// as the ping has left it. Nothing else takes from the pool or gives to it meanwhile.
pub proof fn get_hands_out_the_last_that_answers<T, H>(
    pool: PoolView<T, H>,
    dead: Seq<GetOutcome<T, H>>,
    session: Session<T, H>,
)
    requires
        none_answers(dead),
        dead.len() < pool.idle.len(),
    ensures
        ({
            let at = pool.idle.len() - dead.len() - 1;
            let rest = PoolView { idle: pool.idle.take(at), ..pool };
            &&& get_course(pool, dead) == (rest, GetNextView::Ping(pool.idle[at]))
            &&& get_course(pool, dead.push(GetOutcome::Pinged(session, Ok(())))) == (
                rest,
                GetNextView::Done(Ok::<Session<T, H>, ErrorView>(session)),
            )
        }),
{
    search_goes_backwards(pool, dead);
    let all = dead.push(GetOutcome::Pinged(session, Ok(())));
    assert(all.drop_last() =~= dead);
}

/// Where no idle connection answers, all of them are dropped, and the outcome of the search is the
/// new connection or the failure to make one.
pub proof fn get_connects_where_none_answers<T, H>(
    pool: PoolView<T, H>,
    dead: Seq<GetOutcome<T, H>>,
    connected: Result<Session<T, H>, Error>,
)
    requires
        none_answers(dead),
        dead.len() == pool.idle.len(),
    ensures
        ({
            let rest = PoolView { idle: Seq::empty(), ..pool };
            &&& get_course(pool, dead) == (rest, GetNextView::<T, H>::Connect)
            &&& get_course(pool, dead.push(GetOutcome::Connected(connected))) == (
                rest,
                GetNextView::Done(outcome(connected)),
            )
        }),
{
    search_goes_backwards(pool, dead);
    assert(pool.idle.take(0) =~= Seq::empty());
    let all = dead.push(GetOutcome::Connected(connected));
    assert(all.drop_last() =~= dead);
}

/// A pool never holds more idle connections than it may: it begins so, and stays so when a
/// search for a connection takes a step and when a connection becomes idle.
pub proof fn pool_stays_bounded<T, H>(
    pool: PoolView<T, H>,
    last: GetOutcome<T, H>,
    session: Session<T, H>,
)
    ensures
        pool.idle.len() == 0 ==> pool.bounded(),
        pool.bounded() ==> pool.get_step(last).0.bounded(),
        pool.bounded() ==> pool.with(session).bounded(),
{
}

/// A pool whose idle connections can all be used stays so, as long as those that become idle can.
/// Those that are reset can: see [`reset_session_is_usable`].
pub proof fn pool_stays_usable<T, H>(
    pool: PoolView<T, H>,
    last: GetOutcome<T, H>,
    session: Session<T, H>,
)
    requires
        pool.all_usable(),
    ensures
        pool.get_step(last).0.all_usable(),
        pool.get_step(last).1 matches GetNextView::Ping(next) ==> next.conn@.usable(),
        session.conn@.usable() ==> pool.with(session).all_usable(),
{
}

/// A connection that a pool takes back and that is reset can be used, so the pool stays one whose
/// idle connections can all be used. `taken` is the connection that the pool has taken back, `reset`
/// the one on which the reset was begun and messages were read and written, and `session` the one
/// after the machine of the reset has finished.
pub proof fn reset_session_is_usable<T, H>(
    pool: PoolView<T, H>,
    taken: ConnView<H>,
    reset: ConnView<H>,
    status: TransactionStatus,
    session: Session<T, H>,
)
    requires
        pool.all_usable(),
        taken.usable(),
        reset == (ConnView {
            type_byte: reset.type_byte,
            read_buffer: reset.read_buffer,
            write_buffer: reset.write_buffer,
            handler: reset.handler,
            ..taken.begun()
        }),
        session.conn@ == reset.after_drive(Ok(Action::Finished), status),
    ensures
        session.conn@.usable(),
        pool.with(session).all_usable(),
{
    pool_stays_usable(pool, GetOutcome::Begin, session);
}

/// A connection that was reset is the first to be tried again, where there is room for it, and the
/// others stay as they are. Where there is none, it is dropped, and so is one that could not be reset.
pub proof fn reset_connection_comes_back_first<T, H>(
    pool: &mut Pool<T, H>,
    session: Session<T, H>,
    answer: Result<(), Error>,
    later: &mut Pool<T, H>,
    next: GetNext<T, H>,
)
    requires
        call_ensures(Pool::<T, H>::reset, (pool, session, answer), ()),
        call_ensures(Pool::<T, H>::get, (later, GetOutcome::Begin), next),
        final(pool)@ == old(later)@,
    ensures
        answer is Ok && old(pool)@.idle.len() < old(pool)@.max_idle ==> next@ == GetNextView::Ping(
            session,
        ) && final(later)@ == old(pool)@,
        answer is Err || old(pool)@.idle.len() >= old(pool)@.max_idle ==> final(pool)@
            == old(pool)@,
{
    assert(old(pool)@.idle.push(session).drop_last() =~= old(pool)@.idle);
}

/// A pool takes back the connections that can be used, and only those, as they are.
pub proof fn usable_connections_are_taken_back<T, H>(
    pool: &Pool<T, H>,
    session: Session<T, H>,
    r: Option<Session<T, H>>,
)
    requires
        call_ensures(Pool::<T, H>::check_in, (pool, session), r),
    ensures
        r is Some <==> !session.conn@.broken && !session.conn@.in_progress
            && !session.conn@.scope_pending,
        r matches Some(s) ==> s == session,
{
}

/// A new pool has no connections, and room for as many as its options say.
pub proof fn new_pool_is_empty<T, H>(opts: Opts, pool: Pool<T, H>)
    requires
        call_ensures(Pool::<T, H>::new, (opts,), pool),
    ensures
        pool@.idle.len() == 0,
        pool@.max_idle == opts.pool_max_idle_conn,
        pool@.opts == opts,
{
}

/// What a search hands out is the connection that has answered or was made, and it is what the caller
/// gives back.
pub proof fn searches_hand_out_their_connection<T, H>(
    pool: &mut Pool<T, H>,
    session: Session<T, H>,
    next: GetNext<T, H>,
    other: &mut Pool<T, H>,
    connected: GetNext<T, H>,
    held: PooledConn<T, H>,
    shown: &Session<T, H>,
    given_back: Session<T, H>,
)
    requires
        call_ensures(Pool::<T, H>::get, (pool, GetOutcome::Pinged(session, Ok(()))), next),
        call_ensures(Pool::<T, H>::get, (other, GetOutcome::Connected(Ok(session))), connected),
        next == GetNext::<T, H>::Done(Ok(held)) || connected == GetNext::<T, H>::Done(Ok(held)),
        call_ensures(PooledConn::<T, H>::deref, (&held,), shown),
        call_ensures(PooledConn::<T, H>::into_session, (held,), given_back),
    ensures
        next matches GetNext::Done(r) && r is Ok,
        connected matches GetNext::Done(r) && r is Ok,
        *shown == session,
        given_back == session,
        final(pool)@ == old(pool)@,
{
}

/// What contracts say of the next action of a search is what it holds.
pub proof fn actions_show_what_they_hold<T, H>(n: GetNext<T, H>)
    ensures
        n matches GetNext::Ping(session) ==> n@ == GetNextView::Ping(session),
        n is Connect <==> n@ is Connect,
        n matches GetNext::Done(Ok(p)) ==> n@ == GetNextView::Done(
            Ok::<Session<T, H>, ErrorView>(p.held()),
        ),
        n matches GetNext::Done(Err(e)) ==> n@ == GetNextView::Done(
            Err::<Session<T, H>, ErrorView>(e@),
        ),
{
}

} // verus!
