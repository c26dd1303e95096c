use vstd::prelude::*;
use crate::error::{decimal, id_text, Error, Result};
use crate::signal::{send_shutdown, shutdown_channel};

verus! {

/// A handle to a worker's running thread.
///
/// `join` blocks until the thread has finished, and returns `Err` with a
/// description of what went wrong when the thread did not finish cleanly
/// (for a thread of the standard library: when it panicked). A worker's
/// thread is expected to watch its shutdown receiver and to return soon after
/// a signal arrives or the channel closes; nothing here can force it to.
pub trait Join: Sized {
    fn join(self) -> core::result::Result<(), String>;
}

/// One running worker: its id, its thread, and the sending end of the
/// shutdown channel whose receiving end the thread holds.
pub(crate) struct Worker<H> {
    pub(crate) id: u64,
    pub(crate) thread: H,
    pub(crate) shutdown_tx: std::sync::mpsc::Sender<()>,
}

impl<H: Join> Worker<H> {
    /// Makes a shutdown channel and starts the worker's thread through the
    /// factory, which receives the id, the state and the channel's receiver.
    pub(crate) fn new<State, F: Fn(u64, State, std::sync::mpsc::Receiver<()>) -> H>(
        id: u64,
        state: State,
        handle: &F,
    ) -> (w: Self)
        requires
            forall|i: u64, s: State, rx: std::sync::mpsc::Receiver<()>| handle.requires((i, s, rx)),
        ensures
            w.id == id,
            exists|rx: std::sync::mpsc::Receiver<()>| #[trigger] handle.ensures((id, state, rx), w.thread),
    {
        let (shutdown_tx, shutdown_rx) = shutdown_channel();
        let ghost given = (id, state, shutdown_rx);
        let thread = handle(id, state, shutdown_rx);
        let w = Worker { id, thread, shutdown_tx };
        assert(handle.ensures((id, state, given.2), w.thread));
        w
    }

    /// Retires the worker: sends the shutdown signal, then waits for the
    /// thread to finish. The thread is waited for even when the signal could
    /// not be delivered, since it may have finished on its own.
    pub(crate) fn stop(self) -> (r: Result<()>)
        ensures
            r is Ok || r->Err_0.is_retirement_failure_for(self.id),
    {
        let signal = send_shutdown(&self.shutdown_tx);
        let joined = self.thread.join();
        retirement_result(self.id, signal, joined)
    }
}

/// The result of retiring the worker `worker_id`, from what sending the
/// shutdown signal and joining its thread gave.
///
/// A failed join is reported first, as `StopError`; a signal that could not
/// be delivered to a thread that then finished cleanly is reported as
/// `SendShutdownSignal`; otherwise the worker stopped cleanly.
pub fn retirement_result(
    worker_id: u64,
    signal: core::result::Result<(), std::sync::mpsc::SendError<()>>,
    joined: core::result::Result<(), String>,
) -> (r: Result<()>)
    ensures
        match joined {
            Err(cause) => match r {
                Err(Error::StopError { worker_id: w, error }) => w@ == decimal(worker_id as nat)
                    && error == cause,
                _ => false,
            },
            Ok(()) => match signal {
                Ok(()) => r is Ok,
                Err(e) => r == Err::<(), Error>(Error::SendShutdownSignal(e)),
            },
        },
{
    match joined {
        Err(cause) => Err(Error::StopError { worker_id: id_text(worker_id), error: cause }),
        Ok(()) => match signal {
            Ok(()) => Ok(()),
            Err(e) => Err(Error::SendShutdownSignal(e)),
        },
    }
}

} // verus!
