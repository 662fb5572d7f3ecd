use vstd::prelude::*;

verus! {

// The transfer channel is futures' unbounded multi-producer channel: the
// producer side never blocks, and a send fails exactly when the consumer
// side has gone away, which is the sole cancellation signal the producer
// sees. The channel types and the three calls below are taken on trust;
// everything the pipeline concludes from a send or a receive is stated in
// the verified callers over the returned plain values.
#[verifier::external_type_specification]
#[verifier::external_body]
#[verifier::reject_recursive_types(T)]
pub struct ExUnboundedSender<T>(futures::channel::mpsc::UnboundedSender<T>);

#[verifier::external_type_specification]
#[verifier::external_body]
#[verifier::reject_recursive_types(T)]
pub struct ExUnboundedReceiver<T>(futures::channel::mpsc::UnboundedReceiver<T>);

/// Relies on futures' `mpsc::unbounded`: yields the two connected ends of
/// a fresh unbounded channel.
#[verifier::external_body]
pub fn chunk_channel() -> (futures::channel::mpsc::UnboundedSender<Vec<u8>>,
    futures::channel::mpsc::UnboundedReceiver<Vec<u8>>) {
    futures::channel::mpsc::unbounded()
}

/// Relies on `UnboundedSender::unbounded_send`: enqueues the chunk without
/// ever blocking and reports success; it fails exactly when the receiving
/// end has disconnected, in which case the chunk is dropped.
#[verifier::external_body]
pub fn send_chunk(tx: &futures::channel::mpsc::UnboundedSender<Vec<u8>>, chunk: Vec<u8>) -> bool {
    tx.unbounded_send(chunk).is_ok()
}

/// Relies on `UnboundedReceiver::recv` driven to completion: waits for the
/// next chunk in production order, and yields `None` once the channel is
/// closed and drained.
#[verifier::external_body]
pub fn recv_chunk(rx: &mut futures::channel::mpsc::UnboundedReceiver<Vec<u8>>) -> Option<Vec<u8>> {
    match futures::executor::block_on(rx.recv()) {
        Ok(chunk) => Some(chunk),
        Err(_) => None,
    }
}

} // verus!
