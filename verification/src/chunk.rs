use vstd::prelude::*;

verus! {

/// The byte sequences of a run of sealed chunks.
pub open spec fn chunk_views(chunks: Seq<Vec<u8>>) -> Seq<Seq<u8>> {
    chunks.map_values(|c: Vec<u8>| c@)
}

/// All the bytes of a run of sealed chunks, in order.
pub open spec fn chunks_bytes(chunks: Seq<Vec<u8>>) -> Seq<u8> {
    chunk_views(chunks).flatten()
}

/// Appending one chunk appends exactly its bytes.
pub proof fn lemma_chunks_bytes_push(chunks: Seq<Vec<u8>>, c: Vec<u8>)
    ensures
        chunks_bytes(chunks.push(c)) == chunks_bytes(chunks) + c@,
{
    assert(chunk_views(chunks.push(c)) =~= chunk_views(chunks).push(c@));
    chunk_views(chunks).lemma_flatten_push(c@);
    assert(chunks_bytes(chunks.push(c)) =~= chunks_bytes(chunks) + c@);
}

/// Accumulates encoded bytes into fixed-capacity chunks. The open chunk is
/// sealed and handed back exactly when it reaches the capacity; a fresh
/// empty chunk of the same capacity takes its place at once.
pub struct ChunkBuffer {
    pub buf: Vec<u8>,
    pub cap: usize,
}

impl ChunkBuffer {
    /// Bytes gathered so far into the open chunk.
    pub open spec fn pending(self) -> Seq<u8> {
        self.buf@
    }

    /// The capacity is positive and the open chunk is strictly below it:
    /// a full chunk never lingers, it is sealed on arrival.
    pub open spec fn wf(self) -> bool {
        self.cap > 0 && self.buf@.len() < self.cap
    }

    /// A fresh buffer with the given fixed capacity.
    pub fn new(cap: usize) -> (r: ChunkBuffer)
        requires
            cap > 0,
        ensures
            r.wf(),
            r.cap == cap,
            r.pending() == Seq::<u8>::empty(),
    {
        ChunkBuffer { buf: Vec::new(), cap }
    }

    /// Appends one byte. If that byte completes the open chunk, the chunk
    /// is sealed and returned, and the buffer starts over empty.
    pub fn push_byte(&mut self, b: u8) -> (sealed: Option<Vec<u8>>)
        requires
            old(self).wf(),
        ensures
            final(self).wf(),
            final(self).cap == old(self).cap,
            match sealed {
                None => {
                    &&& final(self).pending() == old(self).pending().push(b)
                    &&& old(self).pending().len() + 1 < old(self).cap
                },
                Some(c) => {
                    &&& c@ == old(self).pending().push(b)
                    &&& c@.len() == old(self).cap
                    &&& final(self).pending() == Seq::<u8>::empty()
                },
            },
    {
        self.buf.push(b);
        if self.buf.len() == self.cap {
            let mut full: Vec<u8> = Vec::new();
            core::mem::swap(&mut full, &mut self.buf);
            Some(full)
        } else {
            None
        }
    }

    /// Appends a run of bytes, returning every chunk sealed along the way,
    /// in order. No byte is lost or reordered: the bytes held before the
    /// call followed by the pushed bytes equal the sealed chunks followed
    /// by the bytes still pending.
    pub fn push(&mut self, bytes: &[u8]) -> (sealed: Vec<Vec<u8>>)
        requires
            old(self).wf(),
        ensures
            final(self).wf(),
            final(self).cap == old(self).cap,
            forall|i: int|
                0 <= i < sealed@.len() ==> (#[trigger] sealed@[i])@.len() == old(self).cap,
            chunks_bytes(sealed@) + final(self).pending() == old(self).pending() + bytes@,
    {
        let mut sealed: Vec<Vec<u8>> = Vec::new();
        assert(chunk_views(sealed@) =~= Seq::<Seq<u8>>::empty());
        assert(chunks_bytes(sealed@) + self.pending() =~= old(self).pending() + bytes@.take(0));
        let mut i: usize = 0;
        while i < bytes.len()
            invariant
                i <= bytes@.len(),
                self.wf(),
                self.cap == old(self).cap,
                forall|j: int|
                    0 <= j < sealed@.len() ==> (#[trigger] sealed@[j])@.len() == old(self).cap,
                chunks_bytes(sealed@) + self.pending() == old(self).pending() + bytes@.take(
                    i as int,
                ),
            decreases bytes@.len() - i,
        {
            let b = bytes[i];
            let ghost pend0 = self.pending();
            let ghost done0 = chunks_bytes(sealed@);
            match self.push_byte(b) {
                None => {
                    proof {
                        assert(bytes@.take(i + 1) =~= bytes@.take(i as int).push(b));
                        assert(done0 + pend0.push(b) =~= (done0 + pend0).push(b));
                        assert((old(self).pending() + bytes@.take(i as int)).push(b) =~= old(
                            self,
                        ).pending() + bytes@.take(i + 1));
                    }
                },
                Some(c) => {
                    let ghost prev = sealed@;
                    sealed.push(c);
                    proof {
                        lemma_chunks_bytes_push(prev, c);
                        assert(bytes@.take(i + 1) =~= bytes@.take(i as int).push(b));
                        assert(done0 + c@ =~= (done0 + pend0).push(b));
                        assert((old(self).pending() + bytes@.take(i as int)).push(b) =~= old(
                            self,
                        ).pending() + bytes@.take(i + 1));
                        assert(chunks_bytes(sealed@) + self.pending() =~= done0 + c@);
                    }
                },
            }
            i = i + 1;
        }
        proof {
            assert(bytes@.take(bytes@.len() as int) =~= bytes@);
        }
        sealed
    }

    /// Hands back the partial open chunk, if any, leaving the buffer
    /// empty. Used on source exhaustion, so that no gathered byte is
    /// discarded.
    pub fn flush(&mut self) -> (last: Option<Vec<u8>>)
        requires
            old(self).wf(),
        ensures
            final(self).wf(),
            final(self).cap == old(self).cap,
            final(self).pending() == Seq::<u8>::empty(),
            match last {
                None => old(self).pending().len() == 0,
                Some(c) => c@ == old(self).pending() && 0 < c@.len() < old(self).cap,
            },
    {
        if self.buf.len() == 0 {
            None
        } else {
            let mut part: Vec<u8> = Vec::new();
            core::mem::swap(&mut part, &mut self.buf);
            Some(part)
        }
    }
}

} // verus!
