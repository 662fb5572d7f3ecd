use vstd::prelude::*;

use crate::channel::recv_chunk;

verus! {

/// Pull-based view of the transfer channel's receiving end: each call
/// yields the next sealed chunk in production order, and `None` once the
/// producer has closed the channel and every chunk has been drained. It
/// buffers nothing of its own, and once it has reported the end it stays
/// ended and never polls the channel again.
pub struct StreamAdapter {
    pub rx: futures::channel::mpsc::UnboundedReceiver<Vec<u8>>,
    pub done: bool,
}

impl StreamAdapter {
    /// Whether the stream has reported its end.
    pub open spec fn is_done(self) -> bool {
        self.done
    }

    /// Wraps the receiving end of a session's channel.
    pub fn new(rx: futures::channel::mpsc::UnboundedReceiver<Vec<u8>>) -> (r: StreamAdapter)
        ensures
            !r.is_done(),
    {
        StreamAdapter { rx, done: false }
    }

    /// The next chunk, or `None` on clean exhaustion. An ended stream
    /// stays ended: after the first `None` every further call returns
    /// `None` without touching the channel.
    pub fn next_chunk(&mut self) -> (r: Option<Vec<u8>>)
        ensures
            old(self).is_done() ==> r == Option::<Vec<u8>>::None,
            (r == Option::<Vec<u8>>::None) == final(self).is_done(),
            old(self).is_done() ==> final(self).is_done(),
    {
        if self.done {
            return None;
        }
        match recv_chunk(&mut self.rx) {
            None => {
                self.done = true;
                None
            },
            Some(c) => Some(c),
        }
    }
}

} // verus!
