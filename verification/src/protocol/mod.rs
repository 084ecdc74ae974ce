//! Messages of the PostgreSQL protocol, version 3.

pub mod answers;
pub mod backend;
pub mod frontend;
pub mod peer;
pub mod wire;
