//! How operations begin, and what encloses them: portals, transactions, pipelines.
//!
//! Every operation refuses a connection that is marked unusable, and leaves it as it is. An
//! operation that is driven by a protocol state machine is recorded as an exchange before the
//! machine's first step.

use vstd::prelude::*;
use vstd::string::*;

use crate::conn::exchange::SyncExchange;
use crate::conn::{Conn, ConnView};
use crate::error::{outcome, Error, ErrorView};
use crate::pipeline::model::PipelineView;
use crate::pipeline::Pipeline;
use crate::protocol::frontend::sync_frame;
use crate::statement::{statement_name, IntoStatement, PreparedStatement, StatementRef};

verus! {

/// Asks the server whether it is there.
pub const PING: &'static str = "";

/// Begins a transaction.
pub const BEGIN: &'static str = "BEGIN";

/// Makes a transaction permanent.
pub const COMMIT: &'static str = "COMMIT";

/// Undoes a transaction.
pub const ROLLBACK: &'static str = "ROLLBACK";

/// What a machine has to execute or bind.
#[derive(Debug)]
pub enum Plan<'s> {
    /// Parse this text first.
    Sql(&'s str),
    /// Use the statement of this name, with parameters of these types.
    Prepared { name: String, oids: &'s [u32] },
}

/// A plan with its contents as mathematical values.
pub enum PlanView {
    Sql(Seq<char>),
    Prepared { name: Seq<char>, oids: Seq<u32> },
}

impl<'s> View for Plan<'s> {
    type V = PlanView;

    open spec fn view(&self) -> PlanView {
        match self {
            Plan::Sql(sql) => PlanView::Sql(sql@),
            Plan::Prepared { name, oids } => PlanView::Prepared { name: name@, oids: oids@ },
        }
    }
}

/// The plan for a statement.
pub open spec fn plan_of(statement: StatementRef<'_>) -> PlanView {
    match statement {
        StatementRef::Sql(sql) => PlanView::Sql(sql@),
        StatementRef::Prepared(stmt) => PlanView::Prepared {
            name: statement_name(stmt.idx as nat),
            oids: stmt.param_oids@,
        },
    }
}

/// What a machine has to bind, and as which portal.
#[derive(Debug)]
pub struct BindPlan<'s> {
    /// The name of the portal, empty for the unnamed one.
    pub portal: &'s str,
    pub plan: Plan<'s>,
}

/// A plan to bind a portal with its contents as mathematical values.
pub struct BindPlanView {
    pub portal: Seq<char>,
    pub plan: PlanView,
}

impl<'s> View for BindPlan<'s> {
    type V = BindPlanView;

    open spec fn view(&self) -> BindPlanView {
        BindPlanView { portal: self.portal@, plan: self.plan@ }
    }
}

/// What a machine has to prepare.
#[derive(Debug)]
pub struct Preparation<'q> {
    /// The number that the name of the statement is made of.
    pub idx: u64,
    pub query: &'q str,
    /// The types of the parameters that are given, the server infers the others.
    pub oids: &'q [u32],
}

fn plan<'s, S: IntoStatement + ?Sized>(statement: &'s S) -> (r: Plan<'s>)
    ensures
        r@ == plan_of(statement.statement()),
{
    match statement.statement_ref() {
        StatementRef::Sql(sql) => Plan::Sql(sql),
        StatementRef::Prepared(stmt) => Plan::Prepared {
            name: stmt.wire_name(),
            oids: stmt.param_oids.as_slice(),
        },
    }
}

impl<H> ConnView<H> {
    /// An exchange has begun.
    pub open spec fn begun(self) -> ConnView<H> {
        ConnView { in_progress: true, ..self }
    }

    /// The scope of an unnamed portal is open.
    pub open spec fn portal_opened(self) -> ConnView<H> {
        ConnView { scope_pending: true, ..self }
    }

    /// The scope of an unnamed portal is closed, where the last exchange in it has finished.
    pub open spec fn portal_closed(self) -> ConnView<H> {
        ConnView { scope_pending: self.scope_pending && !self.ready(), ..self }
    }
}

/// The outcome of a portal: that of the closure, or the error of the Sync after it.
pub open spec fn portal_result<T, E>(result: Result<T, E>, synced: Result<(), E>) -> Result<T, E> {
    match (result, synced) {
        (Ok(v), Ok(())) => Ok(v),
        (Err(e), _) => Err(e),
        (Ok(_), Err(e)) => Err(e),
    }
}

/// The prepared statement that a machine hands out at its end.
pub fn prepared(statement: Option<PreparedStatement>) -> (r: Result<PreparedStatement, Error>)
    ensures
        match statement {
            Some(s) => r == Ok::<PreparedStatement, Error>(s),
            None => outcome(r) == Err::<PreparedStatement, _>(
                ErrorView::LibraryBug("No prepared statement"@),
            ),
        },
{
    match statement {
        Some(s) => Ok(s),
        None => Err(Error::LibraryBug(String::from_str("No prepared statement"))),
    }
}

impl<H> Conn<H> {
    /// Begin a simple query: the text to send.
    pub fn query<'q>(&mut self, sql: &'q str) -> (r: Result<&'q str, Error>)
        ensures
            old(self)@.usable() ==> r == Ok::<&'q str, Error>(sql) && final(self)@
                == old(self)@.begun(),
            !old(self)@.usable() ==> outcome(r) == Err::<&'q str, _>(ErrorView::ConnectionBroken)
                && final(self)@ == old(self)@,
    {
        if let Err(e) = self.ensure_usable() {
            return Err(e);
        }
        match self.begin_exchange() {
            Ok(()) => Ok(sql),
            Err(e) => Err(e),
        }
    }

    /// Begin to ping the server with an empty query to check connection aliveness: the text to send.
    pub fn ping(&mut self) -> (r: Result<&'static str, Error>)
        ensures
            old(self)@.usable() ==> r == Ok::<&'static str, Error>(PING) && final(self)@
                == old(self)@.begun(),
            !old(self)@.usable() ==> outcome(r) == Err::<&'static str, _>(
                ErrorView::ConnectionBroken,
            ) && final(self)@ == old(self)@,
    {
        self.query(PING)
    }

    /// Begin to prepare a statement, without parameter types.
    pub fn prepare<'q>(&mut self, query: &'q str) -> (r: Result<Preparation<'q>, Error>)
        requires
            old(self)@.usable() ==> old(self)@.name_counter < u64::MAX,
        ensures
            old(self)@.usable() ==> (r matches Ok(p) && p.idx == final(self)@.name_counter
                && p.query == query && p.oids@ == Seq::<u32>::empty()) && final(self)@
                == (ConnView {
                name_counter: (old(self)@.name_counter + 1) as u64,
                ..old(self)@.begun()
            }),
            !old(self)@.usable() ==> outcome(r) == Err::<Preparation<'q>, _>(
                ErrorView::ConnectionBroken,
            ) && final(self)@ == old(self)@,
    {
        let oids: &'q [u32] = &[];
        assert(oids@ =~= Seq::<u32>::empty());
        self.prepare_typed(query, oids)
    }

    /// Begin to prepare a statement with explicit parameter types.
    pub fn prepare_typed<'q>(&mut self, query: &'q str, param_oids: &'q [u32]) -> (r: Result<
        Preparation<'q>,
        Error,
    >)
        requires
            old(self)@.usable() ==> old(self)@.name_counter < u64::MAX,
        ensures
            old(self)@.usable() ==> (r matches Ok(p) && p.idx == final(self)@.name_counter
                && p.query == query && p.oids@ == param_oids@) && final(self)@ == (ConnView {
                name_counter: (old(self)@.name_counter + 1) as u64,
                ..old(self)@.begun()
            }),
            !old(self)@.usable() ==> outcome(r) == Err::<Preparation<'q>, _>(
                ErrorView::ConnectionBroken,
            ) && final(self)@ == old(self)@,
    {
        if let Err(e) = self.ensure_usable() {
            return Err(e);
        }
        let idx: u64 = self.reserve_names(1);
        match self.begin_exchange() {
            Ok(()) => Ok(Preparation { idx, query, oids: param_oids }),
            Err(e) => Err(e),
        }
    }

    /// Begin to prepare multiple statements in a single round-trip: for each query the number that
    /// the name of its statement is made of. Nothing begins where there are none.
    pub fn prepare_batch(&mut self, queries: &[&str]) -> (r: Result<Vec<u64>, Error>)
        requires
            old(self)@.usable() ==> old(self)@.name_counter + queries@.len() <= u64::MAX,
        ensures
            !old(self)@.usable() ==> outcome(r) == Err::<Vec<u64>, _>(ErrorView::ConnectionBroken)
                && final(self)@ == old(self)@,
            old(self)@.usable() ==> (r matches Ok(numbers) && numbers@ == Seq::new(
                queries@.len(),
                |i: int| (old(self)@.name_counter + 1 + i) as u64,
            )),
            old(self)@.usable() && queries@.len() == 0 ==> final(self)@ == old(self)@,
            old(self)@.usable() && queries@.len() > 0 ==> final(self)@ == (ConnView {
                name_counter: (old(self)@.name_counter + queries@.len()) as u64,
                ..old(self)@.begun()
            }),
    {
        if let Err(e) = self.ensure_usable() {
            return Err(e);
        }
        let mut numbers: Vec<u64> = Vec::new();
        if queries.len() == 0 {
            return Ok(numbers);
        }
        let start: u64 = self.reserve_names(queries.len() as u64);
        let ghost all = Seq::new(
            queries@.len(),
            |i: int| (old(self)@.name_counter + 1 + i) as u64,
        );
        let mut i: usize = 0;
        while i < queries.len()
            invariant
                i <= queries@.len(),
                start == old(self)@.name_counter + 1,
                old(self)@.name_counter + queries@.len() <= u64::MAX,
                all == Seq::new(
                    queries@.len(),
                    |i: int| (old(self)@.name_counter + 1 + i) as u64,
                ),
                numbers@ == all.take(i as int),
            decreases queries@.len() - i,
        {
            numbers.push(start + i as u64);
            i = i + 1;
            assert(all.take(i as int) =~= all.take(i - 1).push(all[i - 1]));
        }
        assert(all.take(i as int) =~= all);
        match self.begin_exchange() {
            Ok(()) => Ok(numbers),
            Err(e) => Err(e),
        }
    }

    /// Plan the execution of a statement. The machine for the plan is made next, and after it the
    /// exchange begins.
    pub fn exec<'s, S: IntoStatement + ?Sized>(&self, statement: &'s S) -> (r: Result<
        Plan<'s>,
        Error,
    >)
        ensures
            self@.usable() ==> (r matches Ok(p) && p@ == plan_of(statement.statement())),
            !self@.usable() ==> outcome(r) == Err::<Plan<'s>, _>(ErrorView::ConnectionBroken),
    {
        match self.ensure_usable() {
            Ok(()) => Ok(plan(statement)),
            Err(e) => Err(e),
        }
    }

    /// Begin to close a prepared statement: its name.
    pub fn close_statement(&mut self, stmt: &PreparedStatement) -> (r: Result<String, Error>)
        ensures
            old(self)@.usable() ==> (r matches Ok(name) && name@ == statement_name(stmt.idx as nat))
                && final(self)@ == old(self)@.begun(),
            !old(self)@.usable() ==> outcome(r) == Err::<String, _>(ErrorView::ConnectionBroken)
                && final(self)@ == old(self)@,
    {
        if let Err(e) = self.ensure_usable() {
            return Err(e);
        }
        match self.begin_exchange() {
            Ok(()) => Ok(stmt.wire_name()),
            Err(e) => Err(e),
        }
    }

    /// Plan the binding of a statement to a named portal. The machine for the plan is made next,
    /// and after it the exchange begins.
    pub fn create_named_portal<'s, S: IntoStatement + ?Sized>(
        &self,
        portal_name: &'s str,
        statement: &'s S,
    ) -> (r: Result<BindPlan<'s>, Error>)
        ensures
            self@.usable() ==> (r matches Ok(p) && p@ == (BindPlanView {
                portal: portal_name@,
                plan: plan_of(statement.statement()),
            })),
            !self@.usable() ==> outcome(r) == Err::<BindPlan<'s>, _>(ErrorView::ConnectionBroken),
    {
        match self.ensure_usable() {
            Ok(()) => Ok(BindPlan { portal: portal_name, plan: plan(statement) }),
            Err(e) => Err(e),
        }
    }

    /// Plan the binding of a statement to the unnamed portal. The machine for the plan is made
    /// next, and its outcome is the first that a [`PortalRun`] takes.
    pub fn exec_portal<'s, S: IntoStatement + ?Sized>(&self, statement: &'s S) -> (r: Result<
        BindPlan<'s>,
        Error,
    >)
        ensures
            self@.usable() ==> (r matches Ok(p) && p@ == (BindPlanView {
                portal: Seq::empty(),
                plan: plan_of(statement.statement()),
            })),
            !self@.usable() ==> outcome(r) == Err::<BindPlan<'s>, _>(ErrorView::ConnectionBroken),
    {
        proof {
            reveal_strlit("");
            assert(""@ =~= Seq::<char>::empty());
        }
        match self.ensure_usable() {
            Ok(()) => Ok(BindPlan { portal: "", plan: plan(statement) }),
            Err(e) => Err(e),
        }
    }

    /// Open the scope of the unnamed portal and begin to bind it.
    fn open_portal_scope(&mut self) -> (r: Result<(), Error>)
        ensures
            old(self)@.ready() ==> r is Ok && final(self)@ == old(self)@.portal_opened().begun(),
            !old(self)@.ready() ==> outcome(r) == Err::<(), _>(ErrorView::ConnectionBroken)
                && final(self)@ == old(self)@.portal_opened(),
    {
        self.set_scope_pending(true);
        self.begin_exchange()
    }

    /// Close the scope of the unnamed portal after the closure, with its result, and the Sync
    /// after it. An exchange that was interrupted, or a fatal error, keeps the scope pending.
    fn close_portal_scope<T>(&mut self, result: Result<T, Error>, synced: Result<(), Error>) -> (r:
        Result<T, Error>)
        ensures
            r == portal_result(result, synced),
            final(self)@ == old(self)@.portal_closed(),
    {
        if self.ensure_exchange_ready().is_ok() {
            self.set_scope_pending(false);
        }
        match (result, synced) {
            (Ok(v), Ok(())) => Ok(v),
            (Err(e), _) => Err(e),
            (Ok(_), Err(e)) => Err(e),
        }
    }

    /// Run a pipeline of batched queries.
    pub fn pipeline(&mut self) -> (r: Result<Pipeline<'_, H>, Error>)
        ensures
            old(self)@.usable() ==> (r matches Ok(p) && p@ == PipelineView::fresh(
                ConnView { write_buffer: Seq::empty(), ..old(self)@ },
            ) && *final(p.lent()) == *final(self)),
            !old(self)@.usable() ==> (r matches Err(e) && e@ == ErrorView::ConnectionBroken)
                && final(self)@ == old(self)@,
    {
        if let Err(e) = self.ensure_usable() {
            return Err(e);
        }
        Ok(Pipeline::new_inner(self))
    }

    /// Begin to execute a closure within a transaction. Transactions are not nested.
    pub fn transaction<T>(&self) -> (r: (TransactionRun<T>, TransactionNext<T>))
        ensures
            (r.0.stage(), r.1@) == self@.transaction_start::<T>(),
    {
        if self.in_transaction() {
            let error = Error::InvalidUsage(
                String::from_str("nested transactions are not supported"),
            );
            return (TransactionRun { stage: TransactionStage::Over }, TransactionNext::Done(
                Err(error),
            ));
        }
        (TransactionRun { stage: TransactionStage::Beginning }, TransactionNext::Query(BEGIN))
    }
}

/// How far a transaction has come.
pub enum TransactionStage<T> {
    /// The transaction is being begun.
    Beginning,
    /// The closure has been called.
    Calling,
    /// The closure has returned this result, and the transaction is being ended.
    Ending(Result<T, Error>),
    /// The transaction has come to its end.
    Over,
}

/// What has come out of the last action for a transaction.
#[derive(Debug)]
pub enum TransactionOutcome<T> {
    /// The query has been executed, or has failed.
    Queried(Result<(), Error>),
    /// The closure has returned.
    Returned(Result<T, Error>),
}

/// What has to be done next for a transaction.
#[derive(Debug)]
pub enum TransactionNext<T> {
    /// Execute the text as a simple query.
    Query(&'static str),
    /// Call the closure.
    Call,
    /// Nothing; the transaction is over.
    Done(Result<T, Error>),
}

/// What has to be done next, with its contents as mathematical values.
pub enum TransactionNextView<T> {
    Query(Seq<char>),
    Call,
    Done(Result<T, ErrorView>),
}

impl<T> View for TransactionNext<T> {
    type V = TransactionNextView<T>;

    open spec fn view(&self) -> TransactionNextView<T> {
        match self {
            TransactionNext::Query(sql) => TransactionNextView::Query(sql@),
            TransactionNext::Call => TransactionNextView::Call,
            TransactionNext::Done(r) => TransactionNextView::Done(outcome(*r)),
        }
    }
}

impl<T> TransactionStage<T> {
    /// The outcome is the one that this stage waits for.
    pub open spec fn awaits(self, outcome: TransactionOutcome<T>) -> bool {
        match self {
            TransactionStage::Beginning => outcome is Queried,
            TransactionStage::Calling => outcome is Returned,
            TransactionStage::Ending(_) => outcome is Queried,
            TransactionStage::Over => false,
        }
    }
}

impl<H> ConnView<H> {
    /// How a transaction begins: not at all inside another one.
    pub open spec fn transaction_start<T>(self) -> (TransactionStage<T>, TransactionNextView<T>) {
        if self.transaction_status.open_transaction() {
            (
                TransactionStage::Over,
                TransactionNextView::Done(
                    Err(ErrorView::InvalidUsage("nested transactions are not supported"@)),
                ),
            )
        } else {
            (TransactionStage::Beginning, TransactionNextView::Query(BEGIN@))
        }
    }

    /// What follows an outcome. The closure is called once the transaction has begun. If it is
    /// still open after the closure, it is committed where the closure has succeeded and rolled
    /// back where it has failed. The error of a rollback does not hide that of the closure.
    pub open spec fn transaction_step<T>(
        self,
        stage: TransactionStage<T>,
        last: TransactionOutcome<T>,
    ) -> (TransactionStage<T>, TransactionNextView<T>) {
        match last {
            TransactionOutcome::Queried(queried) => match stage {
                TransactionStage::Ending(result) => (
                    TransactionStage::Over,
                    TransactionNextView::Done(
                        match (result, queried) {
                            (Ok(_), Err(e)) => Err(e@),
                            _ => outcome(result),
                        },
                    ),
                ),
                _ => match queried {
                    Ok(()) => (TransactionStage::Calling, TransactionNextView::Call),
                    Err(e) => (TransactionStage::Over, TransactionNextView::Done(Err(e@))),
                },
            },
            TransactionOutcome::Returned(result) =>
                if self.transaction_status.open_transaction() {
                (
                    TransactionStage::Ending(result),
                    TransactionNextView::Query(
                        if result is Ok {
                            COMMIT@
                        } else {
                            ROLLBACK@
                        },
                    ),
                )
            } else {
                (TransactionStage::Over, TransactionNextView::Done(outcome(result)))
            },
        }
    }
}

/// A transaction around a closure: begin, call the closure, end.
pub struct TransactionRun<T> {
    stage: TransactionStage<T>,
}

impl<T> TransactionRun<T> {
    /// How far the transaction has come.
    pub closed spec fn stage(&self) -> TransactionStage<T> {
        self.stage
    }

    /// Takes the outcome of the last action, and answers with the next one.
    pub fn step<H>(&mut self, conn: &Conn<H>, last: TransactionOutcome<T>) -> (n: TransactionNext<
        T,
    >)
        requires
            old(self).stage().awaits(last),
        ensures
            (final(self).stage(), n@) == conn@.transaction_step(old(self).stage(), last),
    {
        let mut stage = TransactionStage::Over;
        core::mem::swap(&mut self.stage, &mut stage);
        match last {
            TransactionOutcome::Queried(queried) => match stage {
                TransactionStage::Ending(result) => match (result, queried) {
                    (Ok(_), Err(e)) => TransactionNext::Done(Err(e)),
                    (result, _) => TransactionNext::Done(result),
                },
                _ => match queried {
                    Ok(()) => {
                        self.stage = TransactionStage::Calling;
                        TransactionNext::Call
                    },
                    Err(e) => TransactionNext::Done(Err(e)),
                },
            },
            TransactionOutcome::Returned(result) => {
                if !conn.in_transaction() {
                    return TransactionNext::Done(result);
                }
                let sql = match &result {
                    Ok(_) => COMMIT,
                    Err(_) => ROLLBACK,
                };
                self.stage = TransactionStage::Ending(result);
                TransactionNext::Query(sql)
            },
        }
    }
}

/// The stage and the next action after a course of outcomes, each with the connection as it is then.
pub open spec fn transaction_course<T, H>(
    start: ConnView<H>,
    steps: Seq<(ConnView<H>, TransactionOutcome<T>)>,
) -> (TransactionStage<T>, TransactionNextView<T>)
    decreases steps.len(),
{
    if steps.len() == 0 {
        start.transaction_start()
    } else {
        steps.last().0.transaction_step(
            transaction_course(start, steps.drop_last()).0,
            steps.last().1,
        )
    }
}

/// Each outcome of the course is the one that the transaction waits for.
pub open spec fn transaction_regular<T, H>(
    start: ConnView<H>,
    steps: Seq<(ConnView<H>, TransactionOutcome<T>)>,
) -> bool
    decreases steps.len(),
{
    steps.len() == 0 || (transaction_regular(start, steps.drop_last()) && transaction_course(
        start,
        steps.drop_last(),
    ).0.awaits(steps.last().1))
}

/// All actions of a course of outcomes, in order.
pub open spec fn transaction_actions<T, H>(
    start: ConnView<H>,
    steps: Seq<(ConnView<H>, TransactionOutcome<T>)>,
) -> Seq<TransactionNextView<T>>
    decreases steps.len(),
{
    if steps.len() == 0 {
        seq![start.transaction_start::<T>().1]
    } else {
        transaction_actions(start, steps.drop_last()).push(transaction_course(start, steps).1)
    }
}

/// A transaction goes its way in this order: BEGIN comes first, and nothing at all inside another
/// transaction; if BEGIN succeeds, the closure is called, once, and otherwise it never is and the
/// outcome is the error of BEGIN; after the closure comes at most one query, COMMIT if the closure
/// has succeeded and ROLLBACK if it has failed, and that only if the transaction is still open. The
/// outcome is that of the closure, or the error of COMMIT.
pub proof fn transaction_keeps_its_order<T, H>(
    start: ConnView<H>,
    steps: Seq<(ConnView<H>, TransactionOutcome<T>)>,
)
    requires
        transaction_regular(start, steps),
    ensures
        steps.len() <= 3,
        transaction_actions(start, steps).len() == steps.len() + 1,
        ({
            let actions = transaction_actions(start, steps);
            let nested = start.transaction_status.open_transaction();
            &&& nested ==> steps.len() == 0 && actions[0] == TransactionNextView::Done(
                Err::<T, _>(ErrorView::InvalidUsage("nested transactions are not supported"@)),
            )
            &&& !nested ==> actions[0] == TransactionNextView::<T>::Query(BEGIN@)
            &&& steps.len() > 0 ==> match steps[0].1 {
                TransactionOutcome::Queried(Ok(_)) => actions[1] is Call,
                TransactionOutcome::Queried(Err(e)) => steps.len() == 1 && actions[1]
                    == TransactionNextView::Done(Err::<T, _>(e@)),
                _ => false,
            }
            &&& steps.len() > 1 ==> match steps[1].1 {
                TransactionOutcome::Returned(result) =>
                    if steps[1].0.transaction_status.open_transaction() {
                    actions[2] == TransactionNextView::<T>::Query(
                        if result is Ok {
                            COMMIT@
                        } else {
                            ROLLBACK@
                        },
                    )
                } else {
                    steps.len() == 2 && actions[2] == TransactionNextView::Done(outcome(result))
                },
                _ => false,
            }
            &&& steps.len() > 2 ==> match (steps[1].1, steps[2].1) {
                (TransactionOutcome::Returned(result), TransactionOutcome::Queried(ended)) =>
                    actions[3] == TransactionNextView::Done(
                    match (result, ended) {
                        (Ok(_), Err(e)) => Err(e@),
                        _ => outcome(result),
                    },
                ),
                _ => false,
            }
        }),
{
    reveal_with_fuel(transaction_course, 6);
    reveal_with_fuel(transaction_regular, 6);
    reveal_with_fuel(transaction_actions, 6);
}

/// How far the run of an unnamed portal has come.
pub enum PortalStage<T> {
    /// The machine that binds the portal is being made.
    Planned,
    /// The portal is being bound.
    Binding,
    /// The closure has been called.
    Calling,
    /// The closure has returned this result, and a Sync has been sent.
    Syncing(Result<T, Error>),
    /// The run has come to its end.
    Over,
}

/// What has come out of the last action for an unnamed portal.
#[derive(Debug)]
pub enum PortalOutcome<T> {
    /// The machine that binds the portal was made, or could not be.
    Made(Result<(), Error>),
    /// The machine has bound the portal, or has failed.
    Bound(Result<(), Error>),
    /// The closure has returned.
    Returned(Result<T, Error>),
    /// The Sync has come to its end.
    Synced(Result<(), Error>),
}

/// What has to be done next for an unnamed portal.
pub enum PortalNext<T> {
    /// Drive the machine that binds the portal.
    Bind,
    /// Call the closure with the portal.
    Call,
    /// Write the write buffer, and run the Sync.
    Sync(SyncExchange),
    /// Nothing; the run is over.
    Done(Result<T, Error>),
}

/// What has to be done next, with its error as a mathematical value.
pub enum PortalNextView<T> {
    Bind,
    Call,
    /// A Sync with the server error that it has to report at its end.
    Sync(Option<ErrorView>),
    Done(Result<T, ErrorView>),
}

impl<T> View for PortalNext<T> {
    type V = PortalNextView<T>;

    open spec fn view(&self) -> PortalNextView<T> {
        match self {
            PortalNext::Bind => PortalNextView::Bind,
            PortalNext::Call => PortalNextView::Call,
            PortalNext::Sync(exchange) => PortalNextView::Sync(exchange@),
            PortalNext::Done(r) => PortalNextView::Done(outcome(*r)),
        }
    }
}

impl<T> PortalStage<T> {
    /// The outcome is the one that this stage waits for.
    pub open spec fn awaits(self, outcome: PortalOutcome<T>) -> bool {
        match self {
            PortalStage::Planned => outcome is Made,
            PortalStage::Binding => outcome is Bound,
            PortalStage::Calling => outcome is Returned,
            PortalStage::Syncing(_) => outcome is Synced,
            PortalStage::Over => false,
        }
    }
}

/// The connection, the stage and the next action after a step.
pub struct PortalStep<T, H> {
    pub conn: ConnView<H>,
    pub stage: PortalStage<T>,
    pub next: PortalNextView<T>,
}

impl<H> ConnView<H> {
    /// An error that breaks the connection is permanent.
    pub open spec fn concluded<T>(self, result: Result<T, ErrorView>) -> ConnView<H> {
        ConnView {
            broken: self.broken || (result matches Err(e) && e.breaks()),
            ..self
        }
    }

    /// The run of a portal ends with this result.
    pub open spec fn portal_over<T>(self, result: Result<T, ErrorView>) -> PortalStep<T, H> {
        PortalStep {
            conn: self.concluded(result),
            stage: PortalStage::Over,
            next: PortalNextView::Done(result),
        }
    }

    /// What follows an outcome. The closure is called once the portal is bound, and whatever it
    /// returns, a Sync is attempted after it.
    pub open spec fn portal_step<T>(self, stage: PortalStage<T>, last: PortalOutcome<T>) ->
        PortalStep<T, H> {
        match last {
            PortalOutcome::Made(Err(e)) => self.portal_over(Err(e@)),
            PortalOutcome::Made(Ok(())) => if self.ready() {
                PortalStep {
                    conn: self.portal_opened().begun(),
                    stage: PortalStage::Binding,
                    next: PortalNextView::Bind,
                }
            } else {
                self.portal_opened().portal_over(Err(ErrorView::ConnectionBroken))
            },
            PortalOutcome::Bound(Err(e)) => self.portal_over(Err(e@)),
            PortalOutcome::Bound(Ok(())) => PortalStep {
                conn: self,
                stage: PortalStage::Calling,
                next: PortalNextView::Call,
            },
            PortalOutcome::Returned(result) => {
                let v = ConnView { write_buffer: sync_frame(), ..self };
                if self.ready() {
                    PortalStep {
                        conn: v.begun(),
                        stage: PortalStage::Syncing(result),
                        next: PortalNextView::Sync(None),
                    }
                } else {
                    v.portal_closed().portal_over(
                        portal_result(outcome(result), Err(ErrorView::ConnectionBroken)),
                    )
                }
            },
            PortalOutcome::Synced(synced) => self.portal_closed().portal_over(
                portal_result(outcome(stage->Syncing_0), outcome(synced)),
            ),
        }
    }
}

/// The run of an unnamed portal: bind, call the closure, Sync, close.
pub struct PortalRun<T> {
    stage: PortalStage<T>,
}

impl<T> PortalRun<T> {
    /// How far the run has come.
    pub closed spec fn stage(&self) -> PortalStage<T> {
        self.stage
    }

    /// A run whose binding was planned.
    pub fn new() -> (r: Self)
        ensures
            r.stage() is Planned,
    {
        PortalRun { stage: PortalStage::Planned }
    }

    /// Takes the outcome of the last action, and answers with the next one.
    pub fn step<H>(&mut self, conn: &mut Conn<H>, last: PortalOutcome<T>) -> (n: PortalNext<T>)
        requires
            old(self).stage().awaits(last),
        ensures
            ({
                let step = old(conn)@.portal_step(old(self).stage(), last);
                &&& final(conn)@ == step.conn
                &&& final(self).stage() == step.stage
                &&& n@ == step.next
            }),
    {
        let mut stage = PortalStage::Over;
        core::mem::swap(&mut self.stage, &mut stage);
        match last {
            PortalOutcome::Made(Err(e)) => PortalNext::Done(conn.conclude(Err(e))),
            PortalOutcome::Made(Ok(())) => match conn.open_portal_scope() {
                Ok(()) => {
                    self.stage = PortalStage::Binding;
                    PortalNext::Bind
                },
                Err(e) => PortalNext::Done(conn.conclude(Err(e))),
            },
            PortalOutcome::Bound(Err(e)) => PortalNext::Done(conn.conclude(Err(e))),
            PortalOutcome::Bound(Ok(())) => {
                self.stage = PortalStage::Calling;
                PortalNext::Call
            },
            PortalOutcome::Returned(result) => match conn.sync_inner() {
                Ok(exchange) => {
                    self.stage = PortalStage::Syncing(result);
                    PortalNext::Sync(exchange)
                },
                Err(e) => {
                    let result = conn.close_portal_scope(result, Err(e));
                    PortalNext::Done(conn.conclude(result))
                },
            },
            PortalOutcome::Synced(synced) => match stage {
                PortalStage::Syncing(result) => {
                    let result = conn.close_portal_scope(result, synced);
                    PortalNext::Done(conn.conclude(result))
                },
                _ => PortalNext::Bind,
            },
        }
    }
}

/// The stage after a course of outcomes, each with the connection as it is then.
pub open spec fn portal_course<T, H>(steps: Seq<(ConnView<H>, PortalOutcome<T>)>) -> PortalStage<T>
    decreases steps.len(),
{
    if steps.len() == 0 {
        PortalStage::Planned
    } else {
        steps.last().0.portal_step(portal_course(steps.drop_last()), steps.last().1).stage
    }
}

/// Each outcome of the course is the one that the run waits for.
pub open spec fn portal_regular<T, H>(steps: Seq<(ConnView<H>, PortalOutcome<T>)>) -> bool
    decreases steps.len(),
{
    steps.len() == 0 || (portal_regular(steps.drop_last()) && portal_course(
        steps.drop_last(),
    ).awaits(steps.last().1))
}

/// How often the closure is called during a course of outcomes.
pub open spec fn portal_calls<T, H>(steps: Seq<(ConnView<H>, PortalOutcome<T>)>) -> nat
    decreases steps.len(),
{
    if steps.len() == 0 {
        0
    } else {
        portal_calls(steps.drop_last()) + if steps.last().0.portal_step(
            portal_course(steps.drop_last()),
            steps.last().1,
        ).next is Call {
            1nat
        } else {
            0nat
        }
    }
}

/// The bind has completed during a course of outcomes.
pub open spec fn portal_bound<T, H>(steps: Seq<(ConnView<H>, PortalOutcome<T>)>) -> bool
    decreases steps.len(),
{
    steps.len() > 0 && (portal_bound(steps.drop_last()) || (steps.last().1
        matches PortalOutcome::Bound(bound) && bound is Ok))
}

proof fn portal_calls_follow<T, H>(steps: Seq<(ConnView<H>, PortalOutcome<T>)>)
    requires
        portal_regular(steps),
    ensures
        portal_calls(steps) == if portal_bound(steps) {
            1nat
        } else {
            0nat
        },
        match portal_course(steps) {
            PortalStage::Planned => !portal_bound(steps),
            PortalStage::Binding => !portal_bound(steps),
            PortalStage::Calling => portal_bound(steps),
            PortalStage::Syncing(_) => portal_bound(steps),
            PortalStage::Over => true,
        },
    decreases steps.len(),
{
    if steps.len() > 0 {
        portal_calls_follow(steps.drop_last());
    }
}

/// The closure of an unnamed portal is called exactly once if the bind completes, and never
/// otherwise.
pub proof fn closure_is_called_once<T, H>(steps: Seq<(ConnView<H>, PortalOutcome<T>)>)
    requires
        portal_regular(steps),
    ensures
        portal_calls(steps) == if portal_bound(steps) {
            1nat
        } else {
            0nat
        },
{
    portal_calls_follow(steps);
}

/// A Sync is attempted after the closure whether it has succeeded or failed: it is in the write
/// buffer, and it is sent unless the exchange was interrupted. The result is that of the closure if
/// it has failed, and otherwise that of the Sync. A portal that was not bound ends in an error.
pub proof fn sync_follows_closure<T, H>(
    v: ConnView<H>,
    bound: Result<(), Error>,
    result: Result<T, Error>,
    synced: Result<(), Error>,
)
    ensures
        ({
            let step = v.portal_step(PortalStage::Calling, PortalOutcome::Returned(result));
            &&& step.conn.write_buffer == sync_frame()
            &&& v.ready() ==> step.next is Sync && step.stage == PortalStage::Syncing(result)
            &&& !v.ready() ==> (step.next matches PortalNextView::Done(r) && r is Err)
        }),
        v.portal_step(PortalStage::Syncing(result), PortalOutcome::Synced(synced)).next
            == PortalNextView::Done(
            match (result, synced) {
                (Err(e), _) => Err(e@),
                (Ok(_), Err(e)) => Err(e@),
                (Ok(t), Ok(())) => Ok(t),
            },
        ),
        v.portal_step(PortalStage::<T>::Planned, PortalOutcome::Made(bound)).next
            matches PortalNextView::Done(r) ==> r is Err,
        v.portal_step(PortalStage::<T>::Binding, PortalOutcome::Bound(bound)).next
            matches PortalNextView::Done(r) ==> r is Err,
{
}

/// The scope of an unnamed portal makes the connection unusable for anyone else until the last
/// exchange in it has finished without a permanent failure, and usable again from then on.
/// Inside of it, `v` is the connection when the closure and the Sync after it have come to their
/// ends.
pub proof fn portal_scope_ends<H>(start: ConnView<H>, v: ConnView<H>)
    requires
        start.usable(),
        v.scope_pending,
    ensures
        !start.portal_opened().usable(),
        start.portal_opened().ready(),
        v.ready() ==> v.portal_closed().usable(),
        !v.ready() ==> v.portal_closed() == v && !v.portal_closed().usable(),
{
}

/// A recorded exchange keeps a connection from being used, and its end does not clear a permanent
/// failure or end the enclosing scope.
pub proof fn exchange_blocks_use<H>(v: ConnView<H>)
    ensures
        !v.begun().ready(),
        !v.begun().usable(),
        ({
            let finished = ConnView { in_progress: false, ..v.begun() };
            &&& finished.ready() == !v.broken
            &&& finished.usable() == (!v.broken && !v.scope_pending)
        }),
{
}

/// A permanent failure is never cleared: not by a message that is read, nor by the beginning or the
/// end of an exchange, nor by the outcome of an operation, nor by the scope of a portal.
pub proof fn failure_is_permanent<H>(
    v: ConnView<H>,
    message: crate::protocol::backend::Message,
    status: crate::types::TransactionStatus,
)
    requires
        v.broken,
    ensures
        !v.ready() && !v.usable(),
        v.with_message(message).broken,
        v.begun().broken,
        (ConnView { in_progress: false, transaction_status: status, ..v }).broken,
        v.portal_opened().broken,
        v.portal_closed().broken,
{
}

/// The names of prepared statements are unique, and no portal has the name of a statement.
pub proof fn statement_names_differ(a: nat, b: nat)
    ensures
        a != b ==> statement_name(a) != statement_name(b),
        statement_name(a) != crate::conn::portal_name(b),
{
    reveal_strlit("_zero_s_");
    reveal_strlit("_zero_p_");
    assert(statement_name(a)[6] == 's');
    assert(crate::conn::portal_name(b)[6] == 'p');
    if statement_name(a) == statement_name(b) {
        assert(statement_name(a).skip(8) =~= crate::text::decimal(a));
        assert(statement_name(b).skip(8) =~= crate::text::decimal(b));
        crate::text::decimal_injective(a, b);
    }
}

/// A name is never used again: the numbers of names that were handed out, whatever came of them, are
/// not above the counter, and those of names to come are above it.
pub proof fn names_are_never_reused(counter: u64, handed_out: nat, to_come: nat)
    requires
        handed_out <= counter < to_come,
    ensures
        statement_name(handed_out) != statement_name(to_come),
        crate::conn::portal_name(handed_out) != crate::conn::portal_name(to_come),
{
    statement_names_differ(handed_out, to_come);
    crate::conn::portal_names_differ(handed_out, to_come);
}

/// The statements that are prepared together have names of their own: the one for the query with
/// number `i` is made of the counter's next number plus `i`.
pub proof fn batch_names_differ(counter: u64, length: nat, i: int, j: int)
    requires
        counter + length <= u64::MAX,
        0 <= i < j < length,
    ensures
        ({
            let numbers = Seq::new(length, |i: int| (counter + 1 + i) as u64);
            &&& numbers[i] == counter + 1 + i
            &&& counter < numbers[i] <= counter + length
            &&& statement_name(numbers[i] as nat) != statement_name(numbers[j] as nat)
        }),
{
    statement_names_differ((counter + 1 + i) as nat, (counter + 1 + j) as nat);
}

} // verus!
