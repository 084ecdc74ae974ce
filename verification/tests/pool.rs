//! The pool of idle connections.

use zero_postgres::pool::{GetNext, GetOutcome, Session, RESET};
use zero_postgres::{Conn, Error, Opts, Pool, TransactionStatus};

fn session(transport: u32) -> Session<u32, ()> {
    let conn = Conn::established(None, vec![], TransactionStatus::Idle);
    Session { transport, conn }
}

fn pool(max_idle: usize) -> Pool<u32, ()> {
    Pool::new(Opts { pool_max_idle_conn: max_idle, ..Opts::default() })
}

/// The connection that is tried next.
fn take(pool: &mut Pool<u32, ()>) -> Option<u32> {
    match pool.get(GetOutcome::Begin) {
        GetNext::Ping(session) => Some(session.transport),
        GetNext::Connect => None,
        GetNext::Done(_) => panic!("nothing was pinged"),
    }
}

/// A pool with the idle connections 1 to `count`.
fn filled(count: u32) -> Pool<u32, ()> {
    let mut pool = pool(count as usize);
    for n in 1..=count {
        pool.reset(session(n), Ok(()));
    }
    pool
}

/// Searches for a connection; those from `dead` on do not answer.
fn search(pool: &mut Pool<u32, ()>, dead: u32) -> Result<u32, Error> {
    let mut last = GetOutcome::Begin;
    loop {
        last = match pool.get(last) {
            GetNext::Ping(session) if session.transport < dead => {
                GetOutcome::Pinged(session, Ok(()))
            }
            GetNext::Ping(session) => GetOutcome::Pinged(session, Err(Error::ConnectionBroken)),
            GetNext::Connect => GetOutcome::Connected(Ok(session(100))),
            GetNext::Done(result) => return result.map(|held| held.deref().transport),
        };
    }
}

#[test]
fn an_empty_pool_connects() {
    let mut pool = pool(1);
    assert_eq!(pool.opts().port, 5432);
    assert!(matches!(pool.get(GetOutcome::Begin), GetNext::Connect));
    assert_eq!(RESET, "DISCARD ALL");
    match pool.get(GetOutcome::Connected(Ok(session(4)))) {
        GetNext::Done(Ok(held)) => assert_eq!(held.deref().transport, 4),
        _ => panic!("expected a connection"),
    }
    let failed = pool.get(GetOutcome::Connected(Err(Error::Io("refused".into()))));
    assert!(matches!(failed, GetNext::Done(Err(Error::Io(_)))));
    assert_eq!(take(&mut pool), None);
}

#[test]
fn the_last_connection_that_answers_is_handed_out() {
    let mut pool = filled(4);
    assert_eq!(search(&mut pool, 3).unwrap(), 2);
    // Those behind it are gone, the one before it is untouched.
    assert_eq!(take(&mut pool), Some(1));
    assert_eq!(take(&mut pool), None);
    let mut pool = filled(4);
    assert_eq!(search(&mut pool, 5).unwrap(), 4);
    assert_eq!(take(&mut pool), Some(3));
}

#[test]
fn a_pool_connects_where_none_answers() {
    let mut pool = filled(3);
    assert_eq!(search(&mut pool, 0).unwrap(), 100);
    assert_eq!(take(&mut pool), None);
}

#[test]
fn the_last_idle_connection_comes_first() {
    let mut pool = pool(2);
    for n in 1..=2 {
        let session = pool.check_in(session(n)).unwrap();
        pool.reset(session, Ok(()));
    }
    assert_eq!(take(&mut pool), Some(2));
    assert_eq!(take(&mut pool), Some(1));
    assert_eq!(take(&mut pool), None);
}

#[test]
fn no_more_connections_are_idle_than_may_be() {
    let mut pool = pool(2);
    for n in 1..=5 {
        pool.reset(session(n), Ok(()));
    }
    assert_eq!(take(&mut pool), Some(2));
    assert_eq!(take(&mut pool), Some(1));
    assert_eq!(take(&mut pool), None);
}

#[test]
fn broken_connections_are_dropped() {
    let mut pool = pool(2);
    let mut broken = session(1);
    broken.conn.begin_exchange().unwrap();
    assert!(pool.check_in(broken).is_none());
    pool.reset(session(2), Err(Error::Io("reset".into())));
    assert_eq!(take(&mut pool), None);
    let dead = GetOutcome::Pinged(session(3), Err(Error::ConnectionBroken));
    assert!(matches!(pool.get(dead), GetNext::Connect));
    let mut alive = match pool.get(GetOutcome::Pinged(session(3), Ok(()))) {
        GetNext::Done(Ok(alive)) => alive,
        _ => panic!("expected a connection"),
    };
    alive.deref_mut().transport = 5;
    assert_eq!(alive.into_session().transport, 5);
}
