//! Driving a protocol state machine: from what the machine asks for to what the transport does.

use vstd::prelude::*;
use vstd::string::*;

use crate::conn::{Conn, ConnView};
use crate::error::{Error, ErrorView, ServerError};
use crate::types::{AsyncMessage, AsyncMessageView, TransactionStatus};

verus! {

/// What a protocol state machine asks for after a step.
#[derive(Debug)]
pub enum Action {
    WriteAndReadByte,
    ReadMessage,
    Write,
    WriteAndReadMessage,
    TlsHandshake,
    HandleAsyncMessageAndReadMessage(AsyncMessage),
    /// The server reported an error and the exchange is over.
    Error(ServerError),
    /// The exchange is over.
    Finished,
}

/// What the transport has to do.
#[derive(Debug)]
pub enum Demand {
    /// Read a message.
    Read,
    /// Write the write buffer and flush.
    Write,
    /// Write the write buffer, flush, and read a message.
    WriteRead,
    /// Write the write buffer, flush, and read a single byte.
    WriteReadByte,
    /// Start TLS.
    TlsHandshake,
    /// Hand the message to the handler, then read a message.
    NotifyRead(AsyncMessage),
}

/// What the transport has to do, with a message for the handler as a mathematical value.
pub enum DemandView {
    Read,
    Write,
    WriteRead,
    WriteReadByte,
    TlsHandshake,
    NotifyRead(AsyncMessageView),
}

impl View for Demand {
    type V = DemandView;

    open spec fn view(&self) -> DemandView {
        match self {
            Demand::Read => DemandView::Read,
            Demand::Write => DemandView::Write,
            Demand::WriteRead => DemandView::WriteRead,
            Demand::WriteReadByte => DemandView::WriteReadByte,
            Demand::TlsHandshake => DemandView::TlsHandshake,
            Demand::NotifyRead(m) => DemandView::NotifyRead(m@),
        }
    }
}

/// How far an operation has come.
#[derive(Debug)]
pub enum Progress<T> {
    /// The transport has something to do first.
    Io(Demand),
    /// The operation is over.
    Done(Result<T, Error>),
}

/// Progress with its contents as mathematical values.
pub enum ProgressView<T> {
    Io(DemandView),
    Done(Result<T, ErrorView>),
}

impl<T> View for Progress<T> {
    type V = ProgressView<T>;

    open spec fn view(&self) -> ProgressView<T> {
        match self {
            Progress::Io(demand) => ProgressView::Io(demand@),
            Progress::Done(Ok(v)) => ProgressView::Done(Ok(*v)),
            Progress::Done(Err(e)) => ProgressView::Done(Err(e@)),
        }
    }
}

/// The operation fails.
pub open spec fn failed<T>(e: ErrorView) -> ProgressView<T> {
    ProgressView::Done(Err(e))
}

impl<T> ProgressView<T> {
    /// The operation is over with an error after which the connection cannot be used.
    pub open spec fn breaks(self) -> bool {
        self matches ProgressView::Done(Err(e)) && e.breaks()
    }
}

/// The operation fails on a turn that the client does not expect.
pub open spec fn bug<T>(text: Seq<char>) -> ProgressView<T> {
    failed(ErrorView::LibraryBug(text))
}

pub(crate) fn bug_done<T>(text: &str) -> (p: Progress<T>)
    ensures
        p@ == bug::<T>(text@),
{
    Progress::Done(Err(Error::LibraryBug(String::from_str(text))))
}

/// What follows a step of the startup machine, in a build with or without TLS.
pub open spec fn startup_next(step: Result<Action, Error>, tls: bool) -> ProgressView<()> {
    match step {
        Err(e) => failed(e@),
        Ok(Action::WriteAndReadByte) => ProgressView::Io(DemandView::WriteReadByte),
        Ok(Action::ReadMessage) => ProgressView::Io(DemandView::Read),
        Ok(Action::Write) => ProgressView::Io(DemandView::Write),
        Ok(Action::WriteAndReadMessage) => ProgressView::Io(DemandView::WriteRead),
        Ok(Action::TlsHandshake) => if tls {
            ProgressView::Io(DemandView::TlsHandshake)
        } else {
            failed(ErrorView::Unsupported("TLS requested but compio-tls feature not enabled"@))
        },
        // Asynchronous messages do not matter during startup.
        Ok(Action::HandleAsyncMessageAndReadMessage(_)) => ProgressView::Io(DemandView::Read),
        Ok(Action::Error(_)) => bug("unexpected server error during connection startup"@),
        Ok(Action::Finished) => ProgressView::Done(Ok(())),
    }
}

/// Takes a step of the startup machine.
pub fn startup_step(step: Result<Action, Error>, tls: bool) -> (p: Progress<()>)
    ensures
        p@ == startup_next(step, tls),
{
    match step {
        Err(e) => Progress::Done(Err(e)),
        Ok(Action::WriteAndReadByte) => Progress::Io(Demand::WriteReadByte),
        Ok(Action::ReadMessage) => Progress::Io(Demand::Read),
        Ok(Action::Write) => Progress::Io(Demand::Write),
        Ok(Action::WriteAndReadMessage) => Progress::Io(Demand::WriteRead),
        Ok(Action::TlsHandshake) => if tls {
            Progress::Io(Demand::TlsHandshake)
        } else {
            Progress::Done(
                Err(
                    Error::Unsupported(
                        String::from_str("TLS requested but compio-tls feature not enabled"),
                    ),
                ),
            )
        },
        Ok(Action::HandleAsyncMessageAndReadMessage(_)) => Progress::Io(Demand::Read),
        Ok(Action::Error(_)) => bug_done("unexpected server error during connection startup"),
        Ok(Action::Finished) => Progress::Done(Ok(())),
    }
}

/// What follows an asynchronous message: the handler hears of it, where one is set, and a message is
/// read.
pub open spec fn heard_next(m: AsyncMessage, has_handler: bool) -> ProgressView<()> {
    if has_handler {
        ProgressView::Io(DemandView::NotifyRead(m@))
    } else {
        ProgressView::Io(DemandView::Read)
    }
}

/// What follows a step of a query machine. A server error that the machine reports is over with
/// its exchange; an error of the machine itself leaves the exchange unfinished.
pub open spec fn drive_next(
    step: Result<Action, Error>,
    has_handler: bool,
) -> ProgressView<()> {
    match step {
        Err(e) => failed(e@),
        Ok(Action::WriteAndReadByte) => bug("Unexpected WriteAndReadByte in query state machine"@),
        Ok(Action::ReadMessage) => ProgressView::Io(DemandView::Read),
        Ok(Action::Write) => ProgressView::Io(DemandView::Write),
        Ok(Action::WriteAndReadMessage) => ProgressView::Io(DemandView::WriteRead),
        Ok(Action::TlsHandshake) => bug("Unexpected TlsHandshake in query state machine"@),
        Ok(Action::HandleAsyncMessageAndReadMessage(m)) => heard_next(m, has_handler),
        Ok(Action::Error(e)) => failed(ErrorView::Server(e@)),
        Ok(Action::Finished) => ProgressView::Done(Ok(())),
    }
}

/// The machine reports that its exchange is over, with success or with a server error.
pub open spec fn exchange_over(step: Result<Action, Error>) -> bool {
    step matches Ok(action) && (action is Finished || action is Error)
}

/// What follows a step of a machine that binds a portal.
pub open spec fn bind_next(step: Result<Action, Error>, has_handler: bool) -> ProgressView<()> {
    match step {
        Err(e) => failed(e@),
        Ok(Action::ReadMessage) => ProgressView::Io(DemandView::Read),
        Ok(Action::Write) => ProgressView::Io(DemandView::Write),
        Ok(Action::WriteAndReadMessage) => ProgressView::Io(DemandView::WriteRead),
        Ok(Action::Finished) => ProgressView::Done(Ok(())),
        Ok(Action::HandleAsyncMessageAndReadMessage(m)) => heard_next(m, has_handler),
        Ok(_) => bug("Unexpected action in bind"@),
    }
}

/// What follows a step of a machine that prepares several statements.
pub open spec fn prepare_batch_next(
    step: Result<Action, Error>,
    has_handler: bool,
) -> ProgressView<()> {
    match step {
        Err(e) => failed(e@),
        Ok(Action::ReadMessage) => ProgressView::Io(DemandView::Read),
        Ok(Action::WriteAndReadMessage) => ProgressView::Io(DemandView::WriteRead),
        Ok(Action::Finished) => ProgressView::Done(Ok(())),
        Ok(Action::HandleAsyncMessageAndReadMessage(m)) => heard_next(m, has_handler),
        Ok(_) => bug("Unexpected action in batch prepare"@),
    }
}

/// What follows a step of a machine that executes a batch.
pub open spec fn batch_next(step: Result<Action, Error>, has_handler: bool) -> ProgressView<()> {
    match step {
        Err(e) => failed(e@),
        Ok(Action::ReadMessage) => ProgressView::Io(DemandView::Read),
        Ok(Action::WriteAndReadMessage) => ProgressView::Io(DemandView::WriteRead),
        Ok(Action::Finished) => ProgressView::Done(Ok(())),
        Ok(Action::Error(e)) => failed(ErrorView::Server(e@)),
        Ok(Action::HandleAsyncMessageAndReadMessage(m)) => heard_next(m, has_handler),
        Ok(_) => bug("Unexpected action in batch"@),
    }
}

impl<H> ConnView<H> {
    /// The connection after a step with this progress, which ends its exchange or not. An error
    /// that breaks the connection is permanent.
    pub open spec fn stepped(
        self,
        progress: ProgressView<()>,
        over: bool,
        status: TransactionStatus,
    ) -> ConnView<H> {
        ConnView {
            broken: self.broken || progress.breaks(),
            in_progress: self.in_progress && !over,
            transaction_status: if over {
                status
            } else {
                self.transaction_status
            },
            ..self
        }
    }

    /// The connection after a step of a query machine.
    pub open spec fn after_drive(self, step: Result<Action, Error>, status: TransactionStatus) ->
        ConnView<H> {
        self.stepped(drive_next(step, self.handler is Some), exchange_over(step), status)
    }

    /// The connection after a step of a machine that binds a portal.
    pub open spec fn after_bind(self, step: Result<Action, Error>) -> ConnView<H> {
        if step matches Ok(Action::Finished) {
            ConnView { in_progress: false, ..self }
        } else {
            self
        }
    }

    /// The connection after a step of a machine that prepares several statements.
    pub open spec fn after_prepare_batch(
        self,
        step: Result<Action, Error>,
        status: TransactionStatus,
    ) -> ConnView<H> {
        self.stepped(
            prepare_batch_next(step, self.handler is Some),
            step matches Ok(Action::Finished),
            status,
        )
    }

    /// The connection after a step of a machine that executes a batch.
    pub open spec fn after_batch(self, step: Result<Action, Error>, status: TransactionStatus) ->
        ConnView<H> {
        self.stepped(batch_next(step, self.handler is Some), exchange_over(step), status)
    }
}

impl<H> Conn<H> {
    fn hear(&self, m: AsyncMessage) -> (p: Progress<()>)
        ensures
            p@ == heard_next(m, self@.handler is Some),
    {
        if self.has_handler() {
            Progress::Io(Demand::NotifyRead(m))
        } else {
            Progress::Io(Demand::Read)
        }
    }

    fn concluded(&mut self, progress: Progress<()>) -> (p: Progress<()>)
        ensures
            p == progress,
            final(self)@ == (ConnView {
                broken: old(self)@.broken || progress@.breaks(),
                ..old(self)@
            }),
    {
        match progress {
            Progress::Done(result) => Progress::Done(self.conclude(result)),
            Progress::Io(demand) => Progress::Io(demand),
        }
    }

    fn step_over(&mut self, status: TransactionStatus)
        ensures
            final(self)@ == (ConnView {
                in_progress: false,
                transaction_status: status,
                ..old(self)@
            }),
    {
        self.set_transaction_status(status);
        self.finish_exchange();
    }

    /// Takes a step of a query machine; `status` is the machine's transaction status.
    pub fn drive_step(&mut self, step: Result<Action, Error>, status: TransactionStatus) -> (p:
        Progress<()>)
        ensures
            p@ == drive_next(step, old(self)@.handler is Some),
            final(self)@ == old(self)@.after_drive(step, status),
    {
        let progress = match step {
            Err(e) => Progress::Done(Err(e)),
            Ok(Action::WriteAndReadByte) => bug_done(
                "Unexpected WriteAndReadByte in query state machine",
            ),
            Ok(Action::ReadMessage) => Progress::Io(Demand::Read),
            Ok(Action::Write) => Progress::Io(Demand::Write),
            Ok(Action::WriteAndReadMessage) => Progress::Io(Demand::WriteRead),
            Ok(Action::TlsHandshake) => bug_done("Unexpected TlsHandshake in query state machine"),
            Ok(Action::HandleAsyncMessageAndReadMessage(m)) => self.hear(m),
            Ok(Action::Error(e)) => {
                self.step_over(status);
                Progress::Done(Err(Error::Server(e)))
            },
            Ok(Action::Finished) => {
                self.step_over(status);
                Progress::Done(Ok(()))
            },
        };
        self.concluded(progress)
    }

    /// Takes a step of a machine that binds a portal.
    pub fn bind_step(&mut self, step: Result<Action, Error>) -> (p: Progress<()>)
        ensures
            p@ == bind_next(step, old(self)@.handler is Some),
            final(self)@ == old(self)@.after_bind(step),
    {
        match step {
            Err(e) => Progress::Done(Err(e)),
            Ok(Action::ReadMessage) => Progress::Io(Demand::Read),
            Ok(Action::Write) => Progress::Io(Demand::Write),
            Ok(Action::WriteAndReadMessage) => Progress::Io(Demand::WriteRead),
            Ok(Action::Finished) => {
                self.finish_exchange();
                Progress::Done(Ok(()))
            },
            Ok(Action::HandleAsyncMessageAndReadMessage(m)) => self.hear(m),
            Ok(_) => bug_done("Unexpected action in bind"),
        }
    }

    /// Takes a step of a machine that prepares several statements; `status` is the machine's
    /// transaction status.
    pub fn prepare_batch_step(
        &mut self,
        step: Result<Action, Error>,
        status: TransactionStatus,
    ) -> (p: Progress<()>)
        ensures
            p@ == prepare_batch_next(step, old(self)@.handler is Some),
            final(self)@ == old(self)@.after_prepare_batch(step, status),
    {
        let progress = match step {
            Err(e) => Progress::Done(Err(e)),
            Ok(Action::ReadMessage) => Progress::Io(Demand::Read),
            Ok(Action::WriteAndReadMessage) => Progress::Io(Demand::WriteRead),
            Ok(Action::Finished) => {
                self.step_over(status);
                Progress::Done(Ok(()))
            },
            Ok(Action::HandleAsyncMessageAndReadMessage(m)) => self.hear(m),
            Ok(_) => bug_done("Unexpected action in batch prepare"),
        };
        self.concluded(progress)
    }

    /// Takes a step of a machine that executes a batch; `status` is the machine's transaction
    /// status.
    pub fn batch_step(&mut self, step: Result<Action, Error>, status: TransactionStatus) -> (p:
        Progress<()>)
        ensures
            p@ == batch_next(step, old(self)@.handler is Some),
            final(self)@ == old(self)@.after_batch(step, status),
    {
        let progress = match step {
            Err(e) => Progress::Done(Err(e)),
            Ok(Action::ReadMessage) => Progress::Io(Demand::Read),
            Ok(Action::WriteAndReadMessage) => Progress::Io(Demand::WriteRead),
            Ok(Action::Finished) => {
                self.step_over(status);
                Progress::Done(Ok(()))
            },
            Ok(Action::Error(e)) => {
                self.step_over(status);
                Progress::Done(Err(Error::Server(e)))
            },
            Ok(Action::HandleAsyncMessageAndReadMessage(m)) => self.hear(m),
            Ok(_) => bug_done("Unexpected action in batch"),
        };
        self.concluded(progress)
    }
}

/// A machine's outcome that breaks the connection leaves it unusable, whichever driver has run the
/// machine.
pub proof fn breaking_step_blocks_use<H>(
    v: ConnView<H>,
    step: Result<Action, Error>,
    status: TransactionStatus,
)
    requires
        v.in_progress,
    ensures
        drive_next(step, v.handler is Some).breaks() ==> !v.after_drive(step, status).usable(),
        bind_next(step, v.handler is Some).breaks() ==> !v.after_bind(step).usable(),
        prepare_batch_next(step, v.handler is Some).breaks() ==> !v.after_prepare_batch(step, status).usable(),
        batch_next(step, v.handler is Some).breaks() ==> !v.after_batch(step, status).usable(),
{
}

/// The handler hears of every asynchronous message that a machine meets, whichever driver runs the
/// machine, and nothing else changes. Where none is set, the driver reads on.
pub proof fn drivers_hear_every_message<H>(
    v: ConnView<H>,
    m: AsyncMessage,
    status: TransactionStatus,
)
    ensures
        ({
            let step = Ok::<Action, Error>(Action::HandleAsyncMessageAndReadMessage(m));
            let handled = v.handler is Some;
            let next = if handled {
                ProgressView::<()>::Io(DemandView::NotifyRead(m@))
            } else {
                ProgressView::<()>::Io(DemandView::Read)
            };
            &&& drive_next(step, handled) == next && v.after_drive(step, status) == v
            &&& bind_next(step, handled) == next && v.after_bind(step) == v
            &&& prepare_batch_next(step, handled) == next && v.after_prepare_batch(step, status)
                == v
            &&& batch_next(step, handled) == next && v.after_batch(step, status) == v
        }),
{
}

/// An operation whose machine comes to its end leaves a connection usable that was usable at its
/// beginning: `w` is the connection in between, on which messages were read and written.
pub proof fn finished_operation_leaves_usable<H>(
    v: ConnView<H>,
    w: ConnView<H>,
    status: TransactionStatus,
)
    requires
        v.usable(),
        w.in_progress,
        w.broken == v.broken,
        w.scope_pending == v.scope_pending,
    ensures
        w.after_drive(Ok(Action::Finished), status).usable(),
        w.after_prepare_batch(Ok(Action::Finished), status).usable(),
        w.after_batch(Ok(Action::Finished), status).usable(),
        w.after_bind(Ok(Action::Finished)).usable(),
{
}

} // verus!
