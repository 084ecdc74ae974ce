//! The unnamed portal: rows are fetched in batches, inside the scope that opened it.

use vstd::prelude::*;
use vstd::string::*;

use crate::conn::exchange::ExecuteExchange;
use crate::conn::{Conn, ConnView};
use crate::error::{outcome, Error, ErrorView};
use crate::protocol::frontend::{describe_portal_frame, execute_frame, flush_frame};

verus! {

/// Handle to the unnamed portal for iterative row fetching.
pub struct UnnamedPortal<'a, H> {
    /// The connection that was lent to the portal.
    pub conn: &'a mut Conn<H>,
}

impl<'a, H> UnnamedPortal<'a, H> {
    /// Execute the portal to fetch up to `max_rows` rows, 0 for all remaining rows.
    pub fn exec(&mut self, max_rows: u32) -> (r: Result<ExecuteExchange, Error>)
        ensures
            *final(final(self).conn) == *final(old(self).conn),
            final(self).conn@ == (ConnView {
                write_buffer: describe_portal_frame(Seq::empty()) + execute_frame(
                    Seq::empty(),
                    max_rows,
                ) + flush_frame(),
                in_progress: final(self).conn@.in_progress,
                ..old(self).conn@
            }),
            old(self).conn@.ready() ==> (r matches Ok(x) && x.columns() == Seq::<u8>::empty()
                && !x.ending()) && final(self).conn@.in_progress,
            !old(self).conn@.ready() ==> outcome(r) == Err::<ExecuteExchange, _>(
                ErrorView::ConnectionBroken,
            ) && final(self).conn@.in_progress == old(self).conn@.in_progress,
    {
        proof {
            reveal_strlit("");
            assert(""@ =~= Seq::<char>::empty());
        }
        self.conn.execute_portal_inner("", max_rows)
    }
}

} // verus!
