use vstd::prelude::*;

verus! {

#[verifier::external_type_specification]
#[verifier::external_body]
#[verifier::reject_recursive_types(T)]
pub struct ExSender<T>(std::sync::mpsc::Sender<T>);

#[verifier::external_type_specification]
#[verifier::external_body]
#[verifier::reject_recursive_types(T)]
pub struct ExReceiver<T>(std::sync::mpsc::Receiver<T>);

#[verifier::external_type_specification]
#[verifier::external_body]
#[verifier::reject_recursive_types(T)]
pub struct ExSendError<T>(std::sync::mpsc::SendError<T>);

/// Relies on `Clone` for `std::sync::mpsc::SendError`, which the derived
/// `Clone` of the library's error calls; nothing is claimed of the copy.
pub assume_specification<T: Clone>[ <std::sync::mpsc::SendError<T> as Clone>::clone ](
    e: &std::sync::mpsc::SendError<T>,
) -> std::sync::mpsc::SendError<T>;

/// Relies on `std::sync::mpsc::channel`: makes the connected ends of a new
/// shutdown channel.
#[verifier::external_body]
pub(crate) fn shutdown_channel() -> (std::sync::mpsc::Sender<()>, std::sync::mpsc::Receiver<()>) {
    std::sync::mpsc::channel()
}

/// Relies on `std::sync::mpsc::Sender::send`: delivers the shutdown signal, or
/// fails when the receiving end has been dropped. Which of the two happens
/// depends on the worker's thread, so nothing is promised of it.
#[verifier::external_body]
pub(crate) fn send_shutdown(tx: &std::sync::mpsc::Sender<()>) -> core::result::Result<(), std::sync::mpsc::SendError<()>> {
    tx.send(())
}

} // verus!
