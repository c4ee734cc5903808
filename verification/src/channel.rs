use vstd::prelude::*;
use std::sync::Arc;
use std::sync::mpsc::Sender;

verus! {

#[verifier::external_type_specification]
#[verifier::external_body]
#[verifier::reject_recursive_types(T)]
pub struct ExSender<T>(Sender<T>);

/// Relies on std::sync::mpsc::Sender::send: the call never blocks (the
/// channel is unbounded) and fails exactly when the receiving end is
/// gone, in which case the value is dropped. The result says whether the
/// value was accepted into the channel.
#[verifier::external_body]
pub(crate) fn send_frame(tx: &Sender<Arc<Vec<u8>>>, frame: Arc<Vec<u8>>) -> (accepted: bool) {
    tx.send(frame).is_ok()
}

/// Relies on std::sync::mpsc::Sender::send: delivers the stop signal
/// unless the worker has already dropped its receiving end; never
/// blocks. The result says whether the signal was accepted.
#[verifier::external_body]
pub(crate) fn send_signal(tx: &Sender<()>) -> (accepted: bool) {
    tx.send(()).is_ok()
}

/// Relies on std::sync::mpsc::Sender::send: queues raw packet bytes for
/// the external transmit path unless its receiving end is gone; never
/// blocks. The result says whether the bytes were accepted.
#[verifier::external_body]
pub(crate) fn send_packet(tx: &Sender<Vec<u8>>, packet: Vec<u8>) -> (accepted: bool) {
    tx.send(packet).is_ok()
}

} // verus!
