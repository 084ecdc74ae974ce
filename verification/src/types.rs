//! Plain values that a connection carries.

use vstd::prelude::*;
use vstd::string::*;

use crate::error::ServerError;

verus! {

/// Where the session stands with respect to transactions.
#[derive(Clone, Copy, Debug, PartialEq, Eq, Structural)]
pub enum TransactionStatus {
    /// Not in a transaction.
    Idle,
    /// In a transaction.
    InTransaction,
    /// In a transaction that failed and waits for its rollback.
    Failed,
}

impl TransactionStatus {
    /// The status as contracts speak of it: in a transaction, failed or not.
    pub open spec fn open_transaction(self) -> bool {
        self != TransactionStatus::Idle
    }

    /// Whether a transaction is open, failed or not.
    pub fn in_transaction(&self) -> (r: bool)
        ensures
            r == self.open_transaction(),
    {
        match self {
            TransactionStatus::Idle => false,
            _ => true,
        }
    }
}

impl Default for TransactionStatus {
    fn default() -> (r: Self)
        ensures
            r == TransactionStatus::Idle,
    {
        TransactionStatus::Idle
    }
}

/// What the server hands out for cancelling queries.
#[derive(Debug)]
pub struct BackendKeyData {
    pub process_id: u32,
    pub secret_key: Vec<u8>,
}

impl BackendKeyData {
    /// The process that serves the connection.
    pub fn process_id(&self) -> (r: u32)
        ensures
            r == self.process_id,
    {
        self.process_id
    }
}

/// A message that the server sends of its own accord.
#[derive(Debug)]
pub enum AsyncMessage {
    /// From LISTEN and NOTIFY.
    Notification { process_id: u32, channel: Vec<u8>, payload: Vec<u8> },
    /// A warning, or information.
    Notice(ServerError),
    /// A server parameter has a new value.
    ParameterChanged { name: Vec<u8>, value: Vec<u8> },
}

/// A message that the server sends of its own accord, with its texts as sequences.
pub enum AsyncMessageView {
    Notification { process_id: u32, channel: Seq<u8>, payload: Seq<u8> },
    Notice(Seq<(u8, Seq<u8>)>),
    ParameterChanged { name: Seq<u8>, value: Seq<u8> },
}

impl View for AsyncMessage {
    type V = AsyncMessageView;

    open spec fn view(&self) -> AsyncMessageView {
        match self {
            AsyncMessage::Notification { process_id, channel, payload } =>
                AsyncMessageView::Notification {
                process_id: *process_id,
                channel: channel@,
                payload: payload@,
            },
            AsyncMessage::Notice(notice) => AsyncMessageView::Notice(notice@),
            AsyncMessage::ParameterChanged { name, value } => AsyncMessageView::ParameterChanged {
                name: name@,
                value: value@,
            },
        }
    }
}

/// Options of a connection and of a pool.
#[derive(Clone, Debug)]
pub struct Opts {
    /// Path of a Unix socket; takes precedence over the host.
    pub socket: Option<String>,
    pub host: String,
    pub port: u16,
    /// Whether to move a loopback connection to a Unix socket.
    pub upgrade_to_unix_socket: bool,
    /// How many idle connections a pool keeps.
    pub pool_max_idle_conn: usize,
}

impl Default for Opts {
    fn default() -> (r: Self)
        ensures
            r.socket is None,
            r.host@ == Seq::<char>::empty(),
            r.port == 5432,
            r.upgrade_to_unix_socket,
            r.pool_max_idle_conn == 100,
    {
        Opts {
            socket: None,
            host: String::new(),
            port: 5432,
            upgrade_to_unix_socket: true,
            pool_max_idle_conn: 100,
        }
    }
}

/// A transaction is open inside of one, failed or not.
pub proof fn open_transactions_are_these(status: &TransactionStatus, open: bool)
    requires
        call_ensures(TransactionStatus::in_transaction, (status,), open),
    ensures
        *status == TransactionStatus::Idle ==> !open,
        *status == TransactionStatus::InTransaction ==> open,
        *status == TransactionStatus::Failed ==> open,
{
}

} // verus!
