//! Connection, pipeline and pool logic of a PostgreSQL client, without the sockets.
//!
//! Every operation is a set of steps. A step takes the connection and what the
//! transport reported, and answers with what the transport has to do next.

pub mod conn;
pub mod error;
pub mod named_portal;
pub mod params;
pub mod pipeline;
pub mod pool;
pub mod protocol;
pub mod statement;
pub mod text;
pub mod types;
pub mod unnamed_portal;

pub use conn::Conn;
pub use error::{Error, ErrorView, ServerError};
pub use named_portal::NamedPortal;
pub use pipeline::{Pipeline, Ticket};
pub use pool::{Pool, PooledConn};
pub use statement::PreparedStatement;
pub use types::{Opts, TransactionStatus};
pub use unnamed_portal::UnnamedPortal;
