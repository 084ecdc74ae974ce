//! Statements: SQL text, or prepared on the server.

use vstd::prelude::*;
use vstd::string::*;

use crate::text::{decimal, push_decimal};

verus! {

/// A statement that the server has prepared.
#[derive(Debug)]
pub struct PreparedStatement {
    /// The number that its name is made of.
    pub idx: u64,
    /// The types of its parameters.
    pub param_oids: Vec<u32>,
    /// The RowDescription that the server gave for it, if it returns rows.
    pub row_desc_payload: Option<Vec<u8>>,
}

/// The name on the server of the prepared statement with this number.
pub open spec fn statement_name(idx: nat) -> Seq<char> {
    "_zero_s_"@ + decimal(idx)
}

impl PreparedStatement {
    /// The name of the statement on the server.
    pub fn wire_name(&self) -> (r: String)
        ensures
            r@ == statement_name(self.idx as nat),
    {
        let mut name = String::from_str("_zero_s_");
        push_decimal(&mut name, self.idx);
        name
    }

    /// The cached RowDescription.
    pub fn row_desc_payload(&self) -> (r: Option<&Vec<u8>>)
        ensures
            match self.row_desc_payload {
                Some(p) => r == Some(&p),
                None => r is None,
            },
    {
        self.row_desc_payload.as_ref()
    }
}

/// What to execute.
#[derive(Clone, Copy, Debug)]
pub enum StatementRef<'s> {
    Sql(&'s str),
    Prepared(&'s PreparedStatement),
}

/// Anything that can be executed.
pub trait IntoStatement {
    /// What to execute.
    spec fn statement(&self) -> StatementRef<'_>;

    /// What to execute.
    fn statement_ref(&self) -> (r: StatementRef<'_>)
        ensures
            r == self.statement(),
    ;
}

impl IntoStatement for str {
    open spec fn statement(&self) -> StatementRef<'_> {
        StatementRef::Sql(self)
    }

    fn statement_ref(&self) -> (r: StatementRef<'_>) {
        StatementRef::Sql(self)
    }
}

impl IntoStatement for PreparedStatement {
    open spec fn statement(&self) -> StatementRef<'_> {
        StatementRef::Prepared(self)
    }

    fn statement_ref(&self) -> (r: StatementRef<'_>) {
        StatementRef::Prepared(self)
    }
}

} // verus!
