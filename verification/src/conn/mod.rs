//! The state of a connection, and who may use it when.
//!
//! Three flags decide whether a connection may be used. A permanent failure is never cleared.
//! An exchange is recorded before its first byte is sent and is over at its expected last
//! message only. A scope, that is a pipeline or an unnamed portal, stays pending until the
//! server has confirmed its end. Whoever drops an operation half-way leaves its flag behind.

pub mod batch;
pub mod courses;
pub mod drive;
pub mod exchange;
pub mod laws;
pub mod scope;
pub mod target;

use vstd::prelude::*;
use vstd::string::*;

use crate::error::{outcome, Error, ErrorView};
use crate::protocol::backend::{async_of, parse_async, Message};
use crate::text::{decimal, push_decimal};
use crate::types::{AsyncMessage, AsyncMessageView, BackendKeyData, TransactionStatus};

verus! {

/// A connection; `H` is the type of the handler of asynchronous messages.
pub struct Conn<H> {
    type_byte: u8,
    read_buffer: Vec<u8>,
    write_buffer: Vec<u8>,
    backend_key: Option<BackendKeyData>,
    server_params: Vec<(String, String)>,
    transaction_status: TransactionStatus,
    is_broken: bool,
    exchange_in_progress: bool,
    scope_pending: bool,
    name_counter: u64,
    async_message_handler: Option<H>,
}

/// A connection as contracts speak of it.
pub struct ConnView<H> {
    /// The type of the message that was read last.
    pub type_byte: u8,
    /// The payload of the message that was read last.
    pub read_buffer: Seq<u8>,
    /// The messages that wait to be written.
    pub write_buffer: Seq<u8>,
    pub backend_key: Option<BackendKeyData>,
    pub server_params: Seq<(String, String)>,
    pub transaction_status: TransactionStatus,
    /// The connection has failed for good.
    pub broken: bool,
    /// An exchange has begun and has not reached its end.
    pub in_progress: bool,
    /// A pipeline or an unnamed portal still owes the end of its protocol.
    pub scope_pending: bool,
    /// The number of the last generated name.
    pub name_counter: u64,
    pub handler: Option<H>,
}

impl<H> ConnView<H> {
    /// The scope that is open may go on.
    pub open spec fn ready(self) -> bool {
        !self.broken && !self.in_progress
    }

    /// A new operation may begin.
    pub open spec fn usable(self) -> bool {
        self.ready() && !self.scope_pending
    }

    /// What the handler of asynchronous messages, if one is set, has to hear of the message that
    /// was read last.
    pub open spec fn heard(self) -> Option<AsyncMessageView> {
        if self.handler is Some {
            async_of(self.type_byte, self.read_buffer)
        } else {
            None
        }
    }
}

impl<H> View for Conn<H> {
    type V = ConnView<H>;

    closed spec fn view(&self) -> ConnView<H> {
        ConnView {
            type_byte: self.type_byte,
            read_buffer: self.read_buffer@,
            write_buffer: self.write_buffer@,
            backend_key: self.backend_key,
            server_params: self.server_params@,
            transaction_status: self.transaction_status,
            broken: self.is_broken,
            in_progress: self.exchange_in_progress,
            scope_pending: self.scope_pending,
            name_counter: self.name_counter,
            handler: self.async_message_handler,
        }
    }
}

/// The portal name with this number.
pub open spec fn portal_name(n: nat) -> Seq<char> {
    "_zero_p_"@ + decimal(n)
}

impl<H> Conn<H> {
    /// A connection whose startup has finished.
    pub fn established(
        backend_key: Option<BackendKeyData>,
        server_params: Vec<(String, String)>,
        transaction_status: TransactionStatus,
    ) -> (r: Self)
        ensures
            r@ == (ConnView::<H> {
                type_byte: 0,
                read_buffer: Seq::empty(),
                write_buffer: Seq::empty(),
                backend_key,
                server_params: server_params@,
                transaction_status,
                broken: false,
                in_progress: false,
                scope_pending: false,
                name_counter: 0,
                handler: None,
            }),
    {
        let r = Conn {
            type_byte: 0,
            read_buffer: Vec::new(),
            write_buffer: Vec::new(),
            backend_key,
            server_params,
            transaction_status,
            is_broken: false,
            exchange_in_progress: false,
            scope_pending: false,
            name_counter: 0,
            async_message_handler: None,
        };
        r
    }

    /// Get the backend key data for query cancellation.
    pub fn backend_key(&self) -> (r: Option<&BackendKeyData>)
        ensures
            match self@.backend_key {
                Some(k) => r == Some(&k),
                None => r is None,
            },
    {
        self.backend_key.as_ref()
    }

    /// Get the connection ID (backend process ID), 0 if there is no backend key data.
    pub fn connection_id(&self) -> (r: u32)
        ensures
            r == match self@.backend_key {
                Some(k) => k.process_id,
                None => 0,
            },
    {
        match &self.backend_key {
            Some(k) => k.process_id(),
            None => 0,
        }
    }

    /// Get server parameters.
    pub fn server_params(&self) -> (r: &[(String, String)])
        ensures
            r@ == self@.server_params,
    {
        self.server_params.as_slice()
    }

    /// Get the current transaction status.
    pub fn transaction_status(&self) -> (r: TransactionStatus)
        ensures
            r == self@.transaction_status,
    {
        self.transaction_status
    }

    /// Check if currently in a transaction, failed or not.
    pub fn in_transaction(&self) -> (r: bool)
        ensures
            r == self@.transaction_status.open_transaction(),
    {
        self.transaction_status.in_transaction()
    }

    /// Returns whether the connection is marked unusable.
    ///
    /// An interrupted exchange, or an abandoned pipeline or unnamed portal that still owes
    /// protocol completion, prevents reuse. This does not probe the peer.
    pub fn is_broken(&self) -> (r: bool)
        ensures
            r == !self@.usable(),
    {
        self.is_broken || self.exchange_in_progress || self.scope_pending
    }

    /// Refuses a connection that is marked unusable.
    pub fn ensure_usable(&self) -> (r: Result<(), Error>)
        ensures
            outcome(r) == (if self@.usable() {
                Ok(())
            } else {
                Err(ErrorView::ConnectionBroken)
            }),
    {
        if self.is_broken() {
            return Err(Error::ConnectionBroken);
        }
        Ok(())
    }

    /// Refuses a connection on which not even the open scope may go on.
    pub fn ensure_exchange_ready(&self) -> (r: Result<(), Error>)
        ensures
            outcome(r) == (if self@.ready() {
                Ok(())
            } else {
                Err(ErrorView::ConnectionBroken)
            }),
    {
        if self.is_broken || self.exchange_in_progress {
            return Err(Error::ConnectionBroken);
        }
        Ok(())
    }

    /// Records an exchange before its first I/O.
    pub fn begin_exchange(&mut self) -> (r: Result<(), Error>)
        ensures
            old(self)@.ready() ==> r is Ok && final(self)@ == (ConnView {
                in_progress: true,
                ..old(self)@
            }),
            !old(self)@.ready() ==> outcome(r) == Err::<(), _>(ErrorView::ConnectionBroken)
                && final(self)@ == old(self)@,
    {
        if let Err(e) = self.ensure_exchange_ready() {
            return Err(e);
        }
        self.exchange_in_progress = true;
        Ok(())
    }

    /// Records that the exchange has reached a boundary that permits continuation.
    ///
    /// Permanent failures and the enclosing scope are left as they are.
    pub(crate) fn finish_exchange(&mut self)
        ensures
            final(self)@ == (ConnView { in_progress: false, ..old(self)@ }),
    {
        self.exchange_in_progress = false;
    }

    /// Generate the next unique portal name.
    pub fn next_portal_name(&mut self) -> (r: String)
        requires
            old(self)@.name_counter < u64::MAX,
        ensures
            final(self)@ == (ConnView {
                name_counter: (old(self)@.name_counter + 1) as u64,
                ..old(self)@
            }),
            r@ == portal_name(final(self)@.name_counter as nat),
    {
        self.name_counter = self.name_counter + 1;
        let mut name = String::from_str("_zero_p_");
        push_decimal(&mut name, self.name_counter);
        name
    }

    /// How many names can still be generated.
    pub fn names_left(&self) -> (r: u64)
        ensures
            r == u64::MAX - self@.name_counter,
    {
        u64::MAX - self.name_counter
    }

    /// Takes `count` numbers for statement names and gives the first of them.
    pub(crate) fn reserve_names(&mut self, count: u64) -> (r: u64)
        requires
            0 < count,
            old(self)@.name_counter + count <= u64::MAX,
        ensures
            r == old(self)@.name_counter + 1,
            final(self)@ == (ConnView {
                name_counter: (old(self)@.name_counter + count) as u64,
                ..old(self)@
            }),
    {
        let first: u64 = self.name_counter + 1;
        self.name_counter = self.name_counter + count;
        first
    }

    /// Set the async message handler.
    ///
    /// The handler is called when the server sends a notification, a notice or a parameter change.
    pub fn set_async_message_handler(&mut self, handler: H)
        ensures
            final(self)@ == (ConnView { handler: Some(handler), ..old(self)@ }),
    {
        self.async_message_handler = Some(handler);
    }

    /// Remove the async message handler.
    pub fn clear_async_message_handler(&mut self)
        ensures
            final(self)@ == (ConnView { handler: None, ..old(self)@ }),
    {
        self.async_message_handler = None;
    }

    /// The async message handler, to be called.
    pub fn async_message_handler(&mut self) -> (r: Option<&mut H>)
        ensures
            match r {
                Some(h) => old(self)@.handler == Some(*h) && final(self)@ == (ConnView {
                    handler: Some(*final(h)),
                    ..old(self)@
                }),
                None => old(self)@.handler is None && final(self)@ == old(self)@,
            },
    {
        self.async_message_handler.as_mut()
    }

    /// What the handler, if one is set, has to hear of the message that was read last.
    pub(crate) fn heard(&self) -> (r: Option<AsyncMessage>)
        ensures
            match r {
                Some(m) => self@.heard() == Some(m@),
                None => self@.heard() is None,
            },
    {
        if self.async_message_handler.is_some() {
            parse_async(self.type_byte, self.read_buffer.as_slice())
        } else {
            None
        }
    }

    /// Whether an async message handler is set.
    pub(crate) fn has_handler(&self) -> (r: bool)
        ensures
            r == (self@.handler is Some),
    {
        self.async_message_handler.is_some()
    }

    /// Takes the outcome of an operation: an error that breaks the connection is permanent.
    pub fn conclude<T>(&mut self, result: Result<T, Error>) -> (r: Result<T, Error>)
        ensures
            r == result,
            final(self)@ == (ConnView {
                broken: old(self)@.broken || (outcome(result) matches Err(e) && e.breaks()),
                ..old(self)@
            }),
    {
        if let Err(e) = &result {
            if e.is_connection_broken() {
                self.is_broken = true;
            }
        }
        result
    }

    /// Records a permanent failure.
    pub(crate) fn mark_broken(&mut self)
        ensures
            final(self)@ == (ConnView { broken: true, ..old(self)@ }),
    {
        self.is_broken = true;
    }

    /// Whether a permanent failure is recorded.
    pub(crate) fn has_failed(&self) -> (r: bool)
        ensures
            r == self@.broken,
    {
        self.is_broken
    }

    /// Records whether a scope owes the end of its protocol.
    pub(crate) fn set_scope_pending(&mut self, pending: bool)
        ensures
            final(self)@ == (ConnView { scope_pending: pending, ..old(self)@ }),
    {
        self.scope_pending = pending;
    }

    /// Whether a scope owes the end of its protocol.
    pub(crate) fn is_scope_pending(&self) -> (r: bool)
        ensures
            r == self@.scope_pending,
    {
        self.scope_pending
    }

    /// Records the transaction status.
    pub(crate) fn set_transaction_status(&mut self, status: TransactionStatus)
        ensures
            final(self)@ == (ConnView { transaction_status: status, ..old(self)@ }),
    {
        self.transaction_status = status;
    }

    /// Keeps a message that was read from the transport.
    pub fn receive(&mut self, message: Message)
        ensures
            final(self)@ == (ConnView {
                type_byte: message.type_byte,
                read_buffer: message.payload@,
                ..old(self)@
            }),
    {
        self.type_byte = message.type_byte;
        self.read_buffer = message.payload;
    }

    /// The type of the message that was read last.
    pub fn type_byte(&self) -> (r: u8)
        ensures
            r == self@.type_byte,
    {
        self.type_byte
    }

    /// The payload of the message that was read last.
    pub fn read_buffer(&self) -> (r: &[u8])
        ensures
            r@ == self@.read_buffer,
    {
        self.read_buffer.as_slice()
    }

    /// The messages that wait to be written.
    pub fn write_buffer(&self) -> (r: &[u8])
        ensures
            r@ == self@.write_buffer,
    {
        self.write_buffer.as_slice()
    }

    /// The buffer of messages that wait to be written, to be changed.
    pub fn write_buffer_mut(&mut self) -> (r: &mut Vec<u8>)
        ensures
            r@ == old(self)@.write_buffer,
            final(self)@ == (ConnView { write_buffer: final(r)@, ..old(self)@ }),
    {
        &mut self.write_buffer
    }
}

/// Generated portal names are unique: names with different numbers differ.
pub proof fn portal_names_differ(a: nat, b: nat)
    requires
        a != b,
    ensures
        portal_name(a) != portal_name(b),
{
    if portal_name(a) == portal_name(b) {
        let k = "_zero_p_"@.len() as int;
        assert(portal_name(a).skip(k) =~= decimal(a));
        assert(portal_name(b).skip(k) =~= decimal(b));
        crate::text::decimal_injective(a, b);
    }
}

} // verus!
