//! Named portals: rows are fetched in batches, inside a transaction.

use std::marker::PhantomData;

use vstd::prelude::*;
use vstd::string::*;

use crate::conn::exchange::{ExecuteExchange, ReplyExchange, SyncExchange};
use crate::conn::{Conn, ConnView};
use crate::error::{outcome, Error, ErrorView};
use crate::protocol::backend::CLOSE_COMPLETE;
use crate::protocol::frontend::{
    close_portal_frame, describe_portal_frame, execute_frame, flush_frame, sync_frame,
};

verus! {

/// Handle to a named portal for iterative row fetching.
///
/// The lifetime parameter ties the portal to the transaction that created it.
pub struct NamedPortal<'tx> {
    name: String,
    complete: bool,
    _marker: PhantomData<&'tx ()>,
}

impl<'tx> NamedPortal<'tx> {
    /// The name on the server.
    pub closed spec fn named(&self) -> Seq<char> {
        self.name@
    }

    /// No more rows are available.
    pub closed spec fn completed(&self) -> bool {
        self.complete
    }

    /// Create a new named portal.
    pub fn new(name: String) -> (r: Self)
        ensures
            r.named() == name@,
            !r.completed(),
    {
        NamedPortal { name, complete: false, _marker: PhantomData }
    }

    /// Get the portal name.
    pub fn name(&self) -> (r: &str)
        ensures
            r@ == self.named(),
    {
        self.name.as_str()
    }

    /// Check if portal execution is complete (no more rows available).
    pub fn is_complete(&self) -> (r: bool)
        ensures
            r == self.completed(),
    {
        self.complete
    }

    /// Execute the portal for up to `max_rows` rows, 0 for all remaining rows.
    pub fn exec<H>(&self, conn: &mut Conn<H>, max_rows: u32) -> (r: Result<ExecuteExchange, Error>)
        ensures
            old(conn)@.usable() ==> (r matches Ok(x) && x.columns() == Seq::<u8>::empty()
                && !x.ending()) && final(conn)@ == (ConnView {
                write_buffer: describe_portal_frame(self.named()) + execute_frame(
                    self.named(),
                    max_rows,
                ) + flush_frame(),
                in_progress: true,
                ..old(conn)@
            }),
            !old(conn)@.usable() ==> outcome(r) == Err::<ExecuteExchange, _>(
                ErrorView::ConnectionBroken,
            ) && final(conn)@ == old(conn)@,
    {
        conn.lowlevel_execute(self.name.as_str(), max_rows)
    }

    /// Takes whether the portal has more rows after an execution. An execution that failed says
    /// nothing about them.
    pub fn executed(&mut self, has_more: Result<bool, Error>) -> (r: Result<(), Error>)
        ensures
            final(self).named() == old(self).named(),
            match has_more {
                Ok(more) => r is Ok && final(self).completed() == !more,
                Err(e) => r == Err::<(), Error>(e) && final(self).completed() == old(
                    self,
                ).completed(),
            },
    {
        match has_more {
            Ok(more) => {
                self.complete = !more;
                Ok(())
            },
            Err(e) => Err(e),
        }
    }

    /// Close the portal. A Sync follows.
    pub fn close<H>(&self, conn: &mut Conn<H>) -> (r: Result<ReplyExchange, Error>)
        ensures
            old(conn)@.usable() ==> (r matches Ok(x) && x.expects() == CLOSE_COMPLETE && x.named()
                == "CloseComplete"@) && final(conn)@ == (ConnView {
                write_buffer: close_portal_frame(self.named()) + flush_frame(),
                in_progress: true,
                ..old(conn)@
            }),
            !old(conn)@.usable() ==> outcome(r) == Err::<ReplyExchange, _>(
                ErrorView::ConnectionBroken,
            ) && final(conn)@ == old(conn)@,
    {
        conn.lowlevel_close_portal(self.name.as_str())
    }

    /// Takes whether the portal was closed, and goes on with a Sync if it was.
    pub fn closed<H>(self, conn: &mut Conn<H>, closed: Result<(), Error>) -> (r: Result<
        SyncExchange,
        Error,
    >)
        ensures
            match closed {
                Err(e) => r == Err::<SyncExchange, Error>(e) && final(conn)@ == (ConnView {
                    broken: old(conn)@.broken || e@.breaks(),
                    ..old(conn)@
                }),
                Ok(()) => if old(conn)@.usable() {
                    (r matches Ok(x) && x@ is None) && final(conn)@ == (ConnView {
                        write_buffer: sync_frame(),
                        in_progress: true,
                        ..old(conn)@
                    })
                } else {
                    outcome(r) == Err::<SyncExchange, _>(ErrorView::ConnectionBroken)
                        && final(conn)@ == old(conn)@
                },
            },
    {
        match conn.conclude(closed) {
            Ok(()) => conn.lowlevel_sync(),
            Err(e) => Err(e),
        }
    }
}

} // verus!
