use vstd::prelude::*;

use crate::audio_format::FormatDescriptor;
use crate::channel::send_chunk;
use crate::chunk::ChunkBuffer;
use crate::chunk::chunk_views;
use crate::chunk::chunks_bytes;
use crate::encode::clamped;
use crate::encode::encode_quantized;
use crate::encode::encoded_sample;
use crate::encode::in_sample_range;
use crate::encode::lemma_pow256_values;

verus! {

/// A format whose chunk capacity is zero, or does not fit in this
/// machine's address space, cannot back a session.
#[derive(Clone, Copy, Debug, PartialEq, Eq, Structural)]
pub enum SessionConfigError {
    DegenerateFormat,
}

/// The bytes a run of quantized samples puts on the wire at width `w`:
/// each sample clamped and encoded, in order.
pub open spec fn encoded_batch(qs: Seq<i64>, w: nat) -> Seq<u8>
    decreases qs.len(),
{
    if qs.len() == 0 {
        Seq::<u8>::empty()
    } else {
        encoded_batch(qs.drop_last(), w) + encoded_sample(clamped(qs.last() as int, w), w)
    }
}

/// The bytes a run of native 16-bit samples puts on the wire.
pub open spec fn encoded_batch_i16(vs: Seq<i16>) -> Seq<u8>
    decreases vs.len(),
{
    if vs.len() == 0 {
        Seq::<u8>::empty()
    } else {
        encoded_batch_i16(vs.drop_last()) + encoded_sample(vs.last() as int, 2)
    }
}

/// The bytes a run of unsigned 16-bit samples puts on the wire, after
/// recentring onto the signed scale.
pub open spec fn encoded_batch_u16(vs: Seq<u16>) -> Seq<u8>
    decreases vs.len(),
{
    if vs.len() == 0 {
        Seq::<u8>::empty()
    } else {
        encoded_batch_u16(vs.drop_last()) + encoded_sample(vs.last() as int - 0x8000, 2)
    }
}

/// The producing side of one capture session: encodes samples, gathers
/// the bytes into chunks, and hands sealed chunks to the transfer channel.
/// It stops producing the moment a send reports that the consumer has
/// disconnected.
pub struct Producer {
    pub fmt: FormatDescriptor,
    pub buf: ChunkBuffer,
    pub tx: futures::channel::mpsc::UnboundedSender<Vec<u8>>,
    pub active: bool,
    pub delivered: Ghost<Seq<Seq<u8>>>,
    pub accepted: Ghost<Seq<u8>>,
}

impl Producer {
    /// The chunks handed to the channel so far, in production order.
    pub open spec fn delivered_chunks(self) -> Seq<Seq<u8>> {
        self.delivered@
    }

    /// Every encoded byte accepted from the source so far.
    pub open spec fn accepted_bytes(self) -> Seq<u8> {
        self.accepted@
    }

    /// Encoded bytes gathered but not yet part of a sealed chunk.
    pub open spec fn pending(self) -> Seq<u8> {
        self.buf.pending()
    }

    /// Whether the session still produces: it turns false for good when a
    /// send finds the consumer gone, or once the final flush is done.
    pub open spec fn is_active(self) -> bool {
        self.active
    }

    /// While the session is live, every delivered chunk is exactly one
    /// capacity in size, and the delivered bytes followed by the pending
    /// bytes are exactly the accepted bytes: nothing lost, nothing
    /// reordered, nothing invented.
    pub open spec fn wf(self) -> bool {
        &&& self.fmt.wf()
        &&& self.buf.wf()
        &&& self.buf.cap as int == self.fmt.spec_chunk_capacity()
        &&& self.active ==> self.delivered@.flatten() + self.buf.pending() == self.accepted@
        &&& self.active ==> forall|i: int|
            0 <= i < self.delivered@.len() ==> (#[trigger] self.delivered@[i]).len()
                == self.buf.cap
    }

    /// What a step leaves untouched when the session has already stopped.
    pub open spec fn same_state(pre: Producer, post: Producer) -> bool {
        &&& post.fmt == pre.fmt
        &&& post.active == pre.active
        &&& post.accepted@ == pre.accepted@
        &&& post.delivered@ == pre.delivered@
        &&& post.buf.pending() == pre.buf.pending()
        &&& post.buf.cap == pre.buf.cap
    }

    /// Opens a session over the channel's sending end. The chunk capacity
    /// is computed once from the format; a format whose capacity is zero
    /// or beyond `usize` is rejected, and nothing is produced for it.
    pub fn new(fmt: &FormatDescriptor, tx: futures::channel::mpsc::UnboundedSender<Vec<u8>>) -> (r:
        Result<Producer, SessionConfigError>)
        requires
            fmt.wf(),
        ensures
            match r {
                Ok(p) => {
                    &&& p.wf()
                    &&& p.is_active()
                    &&& p.fmt == *fmt
                    &&& p.buf.cap as int == fmt.spec_chunk_capacity()
                    &&& p.accepted_bytes() == Seq::<u8>::empty()
                    &&& p.delivered_chunks() == Seq::<Seq<u8>>::empty()
                    &&& p.pending() == Seq::<u8>::empty()
                    &&& 0 < fmt.spec_chunk_capacity() <= usize::MAX
                },
                Err(e) => {
                    &&& e == SessionConfigError::DegenerateFormat
                    &&& (fmt.spec_chunk_capacity() == 0 || fmt.spec_chunk_capacity() > usize::MAX)
                },
            },
    {
        let cap64 = fmt.chunk_capacity();
        if cap64 == 0 || cap64 > usize::MAX as u64 {
            Err(SessionConfigError::DegenerateFormat)
        } else {
            let p = Producer {
                fmt: FormatDescriptor {
                    sample_rate: fmt.sample_rate,
                    channels: fmt.channels,
                    bit_depth: fmt.bit_depth,
                },
                buf: ChunkBuffer::new(cap64 as usize),
                tx,
                active: true,
                delivered: Ghost(Seq::<Seq<u8>>::empty()),
                accepted: Ghost(Seq::<u8>::empty()),
            };
            proof {
                assert(p.delivered@.flatten() =~= Seq::<u8>::empty());
                assert(p.delivered@.flatten() + p.buf.pending() =~= p.accepted@);
            }
            Ok(p)
        }
    }

    /// Takes one run of already encoded bytes: gathers them, seals chunks
    /// as they fill, and sends each sealed chunk at once. Returns whether
    /// the session is still live; once a send fails, production stops.
    fn push_encoded(&mut self, bytes: &Vec<u8>) -> (live: bool)
        requires
            old(self).wf(),
            old(self).is_active(),
        ensures
            final(self).wf(),
            final(self).fmt == old(self).fmt,
            final(self).buf.cap == old(self).buf.cap,
            live == final(self).is_active(),
            final(self).accepted_bytes() == old(self).accepted_bytes() + bytes@,
            old(self).delivered_chunks().is_prefix_of(final(self).delivered_chunks()),
            old(self).pending().len() + bytes@.len() < old(self).buf.cap ==> {
                &&& live
                &&& final(self).pending() == old(self).pending() + bytes@
                &&& final(self).delivered_chunks() == old(self).delivered_chunks()
            },
    {
        broadcast use vstd::prelude::Seq::lemma_flatten_push;

        proof {
            self.accepted@ = self.accepted@ + bytes@;
        }
        let sealed = self.buf.push(bytes.as_slice());
        let ghost sv = sealed@;
        let ghost pend1 = self.buf.pending();
        let mut k: usize = 0;
        let mut live = true;
        proof {
            assert(sv.skip(0) =~= sv);
            let d = self.delivered@.flatten();
            let cb = chunks_bytes(sv);
            let p0 = old(self).buf.pending();
            let p1 = self.buf.pending();
            assert(d + cb + p1 =~= d + (cb + p1));
            assert(d + (p0 + bytes@) =~= d + p0 + bytes@);
        }
        while k < sealed.len() && live
            invariant
                k <= sv.len(),
                sealed@ == sv,
                live == self.active,
                self.fmt == old(self).fmt,
                self.buf.cap == old(self).buf.cap,
                self.buf.wf(),
                self.fmt.wf(),
                self.buf.cap as int == self.fmt.spec_chunk_capacity(),
                self.accepted@ == old(self).accepted@ + bytes@,
                old(self).delivered@.is_prefix_of(self.delivered@),
                self.buf.pending() == pend1,
                k == 0 ==> live && self.delivered@ == old(self).delivered@,
                forall|i: int|
                    0 <= i < sv.len() ==> (#[trigger] sv[i])@.len() == self.buf.cap,
                live ==> forall|i: int|
                    0 <= i < self.delivered@.len() ==> (#[trigger] self.delivered@[i]).len()
                        == self.buf.cap,
                live ==> self.delivered@.flatten() + chunks_bytes(sv.skip(k as int))
                    + self.buf.pending() == self.accepted@,
            decreases sv.len() - k,
        {
            let ghost dv = self.delivered@;
            let chunk = &sealed[k];
            let ghost cv = chunk@;
            let owned = clone_bytes(chunk);
            let ok = send_chunk(&self.tx, owned);
            if ok {
                proof {
                    self.delivered@ = dv.push(cv);
                    dv.lemma_flatten_push(cv);
                    assert(self.delivered@.flatten() == dv.flatten() + cv);
                    let rest = sv.skip(k as int);
                    assert(rest.first()@ == cv);
                    assert(chunk_views(rest).first() == cv);
                    assert(chunk_views(rest).drop_first() =~= chunk_views(sv.skip(k + 1)));
                    assert(chunks_bytes(rest) == cv + chunks_bytes(sv.skip(k + 1)));
                    let d = dv.flatten();
                    let cb1 = chunks_bytes(sv.skip(k + 1));
                    let p = self.buf.pending();
                    assert(d + chunks_bytes(rest) + p == self.accepted@);
                    assert(d + (cv + cb1) + p =~= d + cv + cb1 + p);
                }
            } else {
                self.active = false;
                live = false;
            }
            k = k + 1;
        }
        proof {
            if live {
                assert(chunk_views(sv.skip(sv.len() as int)) =~= Seq::<Seq<u8>>::empty());
                assert(chunks_bytes(sv.skip(sv.len() as int)) == Seq::<u8>::empty());
                assert(self.delivered@.flatten() + self.buf.pending() =~= self.delivered@.flatten()
                    + chunks_bytes(sv.skip(sv.len() as int)) + self.buf.pending());
            }
            if old(self).pending().len() + bytes@.len() < old(self).buf.cap {
                // nothing reached the capacity, so no chunk was sealed and
                // no send took place
                if sv.len() > 0 {
                    assert(chunk_views(sv).first() == sv.first()@);
                    assert(chunk_views(sv).drop_first() =~= chunk_views(sv.skip(1)));
                    assert(chunks_bytes(sv) == sv.first()@ + chunks_bytes(sv.skip(1)));
                    assert(chunks_bytes(sv).len() >= old(self).buf.cap);
                    assert(false);
                }
                assert(chunk_views(sv) =~= Seq::<Seq<u8>>::empty());
                assert(chunks_bytes(sv) == Seq::<u8>::empty());
                assert(chunks_bytes(sv) + pend1 =~= pend1);
            }
        }
        live
    }

    /// Takes one quantized float-derived sample: clamp, encode, gather,
    /// send. A session that has already stopped ignores it entirely.
    pub fn push_quantized(&mut self, q: i64) -> (live: bool)
        requires
            old(self).wf(),
        ensures
            final(self).wf(),
            final(self).fmt == old(self).fmt,
            live == final(self).is_active(),
            !old(self).is_active() ==> Producer::same_state(*old(self), *final(self)) && !live,
            old(self).is_active() ==> final(self).accepted_bytes() == old(self).accepted_bytes()
                + encoded_sample(
                clamped(q as int, old(self).fmt.spec_width()),
                old(self).fmt.spec_width(),
            ),
            old(self).delivered_chunks().is_prefix_of(final(self).delivered_chunks()),
            final(self).buf.cap == old(self).buf.cap,
            old(self).is_active() && old(self).pending().len() + old(self).fmt.spec_width() < old(
                self,
            ).buf.cap ==> {
                &&& live
                &&& final(self).pending().len() == old(self).pending().len() + old(
                    self,
                ).fmt.spec_width()
                &&& final(self).delivered_chunks() == old(self).delivered_chunks()
            },
    {
        if !self.active {
            return false;
        }
        let bytes = encode_quantized(q, self.fmt.bit_depth);
        self.push_encoded(&bytes)
    }

    /// Takes one native 16-bit sample; every such sample is already in
    /// range, so it is encoded exactly, never altered.
    pub fn push_sample_i16(&mut self, v: i16) -> (live: bool)
        requires
            old(self).wf(),
            old(self).fmt.bit_depth == 16,
        ensures
            final(self).wf(),
            final(self).fmt == old(self).fmt,
            live == final(self).is_active(),
            !old(self).is_active() ==> Producer::same_state(*old(self), *final(self)) && !live,
            old(self).is_active() ==> final(self).accepted_bytes() == old(self).accepted_bytes()
                + encoded_sample(v as int, 2),
            old(self).delivered_chunks().is_prefix_of(final(self).delivered_chunks()),
            final(self).buf.cap == old(self).buf.cap,
            old(self).is_active() && old(self).pending().len() + 2 < old(self).buf.cap ==> {
                &&& live
                &&& final(self).pending().len() == old(self).pending().len() + 2
                &&& final(self).delivered_chunks() == old(self).delivered_chunks()
            },
    {
        proof {
            lemma_pow256_values();
            assert(in_sample_range(v as int, 2));
            assert(clamped(v as int, 2) == v as int);
        }
        self.push_quantized(v as i64)
    }

    /// Takes one unsigned 16-bit sample, recentred onto the signed scale
    /// before encoding.
    pub fn push_sample_u16(&mut self, u: u16) -> (live: bool)
        requires
            old(self).wf(),
            old(self).fmt.bit_depth == 16,
        ensures
            final(self).wf(),
            final(self).fmt == old(self).fmt,
            live == final(self).is_active(),
            !old(self).is_active() ==> Producer::same_state(*old(self), *final(self)) && !live,
            old(self).is_active() ==> final(self).accepted_bytes() == old(self).accepted_bytes()
                + encoded_sample(u as int - 0x8000, 2),
            old(self).delivered_chunks().is_prefix_of(final(self).delivered_chunks()),
            final(self).buf.cap == old(self).buf.cap,
            old(self).is_active() && old(self).pending().len() + 2 < old(self).buf.cap ==> {
                &&& live
                &&& final(self).pending().len() == old(self).pending().len() + 2
                &&& final(self).delivered_chunks() == old(self).delivered_chunks()
            },
    {
        let v = crate::encode::u16_to_i16(u);
        self.push_sample_i16(v)
    }

    /// Takes one callback batch of quantized samples, in order, stopping
    /// at once if the consumer disconnects mid-batch: at most the rest of
    /// the current batch is ever lost to a disconnect.
    pub fn on_samples_quantized(&mut self, qs: &[i64]) -> (live: bool)
        requires
            old(self).wf(),
        ensures
            final(self).wf(),
            final(self).fmt == old(self).fmt,
            final(self).buf.cap == old(self).buf.cap,
            live == final(self).is_active(),
            !old(self).is_active() ==> Producer::same_state(*old(self), *final(self)) && !live,
            old(self).is_active() && live ==> final(self).accepted_bytes() == old(
                self,
            ).accepted_bytes() + encoded_batch(qs@, old(self).fmt.spec_width()),
            old(self).is_active() && !live ==> exists|n: int|
                0 <= n <= qs@.len() && final(self).accepted_bytes() == old(self).accepted_bytes()
                    + encoded_batch(#[trigger] qs@.take(n), old(self).fmt.spec_width()),
            old(self).delivered_chunks().is_prefix_of(final(self).delivered_chunks()),
            old(self).is_active() && old(self).pending().len() + qs@.len() * old(
                self,
            ).fmt.spec_width() < old(self).buf.cap ==> live && final(self).pending().len() == old(
                self,
            ).pending().len() + qs@.len() * old(self).fmt.spec_width(),
    {
        if !self.active {
            return false;
        }
        let ghost w = self.fmt.spec_width();
        let ghost fits = old(self).pending().len() + qs@.len() * w < old(self).buf.cap;
        let mut i: usize = 0;
        let mut live = true;
        proof {
            assert(qs@.take(0) =~= Seq::<i64>::empty());
            assert(self.accepted@ =~= old(self).accepted@ + encoded_batch(qs@.take(0), w));
        }
        while i < qs.len() && live
            invariant
                i <= qs@.len(),
                live == self.active,
                self.wf(),
                self.fmt == old(self).fmt,
                self.buf.cap == old(self).buf.cap,
                w == old(self).fmt.spec_width(),
                fits == (old(self).pending().len() + qs@.len() * w < old(self).buf.cap),
                self.accepted@ == old(self).accepted@ + encoded_batch(qs@.take(i as int), w),
                old(self).delivered@.is_prefix_of(self.delivered@),
                fits ==> live && self.buf.pending().len() == old(self).pending().len() + i as int
                    * w,
            decreases qs@.len() - i,
        {
            let q = qs[i];
            let ghost acc0 = self.accepted@;
            let ghost dv0 = self.delivered@;
            proof {
                if fits {
                    assert((i as int + 1) * w == i as int * w + w) by (nonlinear_arith);
                    assert((i as int + 1) * w <= qs@.len() * w) by (nonlinear_arith)
                        requires
                            i as int + 1 <= qs@.len(),
                            w >= 0,
                    ;
                }
            }
            live = self.push_quantized(q);
            proof {
                let enc = encoded_sample(clamped(q as int, w), w);
                assert(qs@.take(i + 1).drop_last() =~= qs@.take(i as int));
                assert(qs@.take(i + 1).last() == q);
                assert(encoded_batch(qs@.take(i + 1), w) == encoded_batch(qs@.take(i as int), w)
                    + enc);
                assert(old(self).accepted@ + (encoded_batch(qs@.take(i as int), w) + enc) =~= (old(
                    self,
                ).accepted@ + encoded_batch(qs@.take(i as int), w)) + enc);
                lemma_prefix_trans(old(self).delivered@, dv0, self.delivered@);
            }
            i = i + 1;
        }
        proof {
            if live {
                assert(qs@.take(qs@.len() as int) =~= qs@);
            } else if old(self).is_active() {
                assert(0 <= i <= qs@.len() && self.accepted@ == old(self).accepted@
                    + encoded_batch(qs@.take(i as int), w));
            }
        }
        live
    }

    /// Takes one callback batch of native 16-bit samples.
    pub fn on_samples_i16(&mut self, vs: &[i16]) -> (live: bool)
        requires
            old(self).wf(),
            old(self).fmt.bit_depth == 16,
        ensures
            final(self).wf(),
            final(self).fmt == old(self).fmt,
            final(self).buf.cap == old(self).buf.cap,
            live == final(self).is_active(),
            !old(self).is_active() ==> Producer::same_state(*old(self), *final(self)) && !live,
            old(self).is_active() && live ==> final(self).accepted_bytes() == old(
                self,
            ).accepted_bytes() + encoded_batch_i16(vs@),
            old(self).is_active() && !live ==> exists|n: int|
                0 <= n <= vs@.len() && final(self).accepted_bytes() == old(self).accepted_bytes()
                    + encoded_batch_i16(#[trigger] vs@.take(n)),
            old(self).delivered_chunks().is_prefix_of(final(self).delivered_chunks()),
            old(self).is_active() && old(self).pending().len() + vs@.len() * 2 < old(
                self,
            ).buf.cap ==> live && final(self).pending().len() == old(self).pending().len()
                + vs@.len() * 2,
    {
        if !self.active {
            return false;
        }
        let ghost fits = old(self).pending().len() + vs@.len() * 2 < old(self).buf.cap;
        let mut i: usize = 0;
        let mut live = true;
        proof {
            assert(vs@.take(0) =~= Seq::<i16>::empty());
            assert(self.accepted@ =~= old(self).accepted@ + encoded_batch_i16(vs@.take(0)));
        }
        while i < vs.len() && live
            invariant
                i <= vs@.len(),
                live == self.active,
                self.wf(),
                self.fmt == old(self).fmt,
                self.buf.cap == old(self).buf.cap,
                self.fmt.bit_depth == 16,
                fits == (old(self).pending().len() + vs@.len() * 2 < old(self).buf.cap),
                self.accepted@ == old(self).accepted@ + encoded_batch_i16(vs@.take(i as int)),
                old(self).delivered@.is_prefix_of(self.delivered@),
                fits ==> live && self.buf.pending().len() == old(self).pending().len() + i as int
                    * 2,
            decreases vs@.len() - i,
        {
            let v = vs[i];
            let ghost dv0 = self.delivered@;
            live = self.push_sample_i16(v);
            proof {
                let enc = encoded_sample(v as int, 2);
                assert(vs@.take(i + 1).drop_last() =~= vs@.take(i as int));
                assert(vs@.take(i + 1).last() == v);
                assert(encoded_batch_i16(vs@.take(i + 1)) == encoded_batch_i16(vs@.take(i as int))
                    + enc);
                assert(old(self).accepted@ + (encoded_batch_i16(vs@.take(i as int)) + enc) =~= (old(
                    self,
                ).accepted@ + encoded_batch_i16(vs@.take(i as int))) + enc);
                lemma_prefix_trans(old(self).delivered@, dv0, self.delivered@);
            }
            i = i + 1;
        }
        proof {
            if live {
                assert(vs@.take(vs@.len() as int) =~= vs@);
            } else if old(self).is_active() {
                assert(0 <= i <= vs@.len() && self.accepted@ == old(self).accepted@
                    + encoded_batch_i16(vs@.take(i as int)));
            }
        }
        live
    }

    /// Takes one callback batch of unsigned 16-bit samples.
    pub fn on_samples_u16(&mut self, vs: &[u16]) -> (live: bool)
        requires
            old(self).wf(),
            old(self).fmt.bit_depth == 16,
        ensures
            final(self).wf(),
            final(self).fmt == old(self).fmt,
            final(self).buf.cap == old(self).buf.cap,
            live == final(self).is_active(),
            !old(self).is_active() ==> Producer::same_state(*old(self), *final(self)) && !live,
            old(self).is_active() && live ==> final(self).accepted_bytes() == old(
                self,
            ).accepted_bytes() + encoded_batch_u16(vs@),
            old(self).is_active() && !live ==> exists|n: int|
                0 <= n <= vs@.len() && final(self).accepted_bytes() == old(self).accepted_bytes()
                    + encoded_batch_u16(#[trigger] vs@.take(n)),
            old(self).delivered_chunks().is_prefix_of(final(self).delivered_chunks()),
            old(self).is_active() && old(self).pending().len() + vs@.len() * 2 < old(
                self,
            ).buf.cap ==> live && final(self).pending().len() == old(self).pending().len()
                + vs@.len() * 2,
    {
        if !self.active {
            return false;
        }
        let ghost fits = old(self).pending().len() + vs@.len() * 2 < old(self).buf.cap;
        let mut i: usize = 0;
        let mut live = true;
        proof {
            assert(vs@.take(0) =~= Seq::<u16>::empty());
            assert(self.accepted@ =~= old(self).accepted@ + encoded_batch_u16(vs@.take(0)));
        }
        while i < vs.len() && live
            invariant
                i <= vs@.len(),
                live == self.active,
                self.wf(),
                self.fmt == old(self).fmt,
                self.buf.cap == old(self).buf.cap,
                self.fmt.bit_depth == 16,
                fits == (old(self).pending().len() + vs@.len() * 2 < old(self).buf.cap),
                self.accepted@ == old(self).accepted@ + encoded_batch_u16(vs@.take(i as int)),
                old(self).delivered@.is_prefix_of(self.delivered@),
                fits ==> live && self.buf.pending().len() == old(self).pending().len() + i as int
                    * 2,
            decreases vs@.len() - i,
        {
            let v = vs[i];
            let ghost dv0 = self.delivered@;
            live = self.push_sample_u16(v);
            proof {
                let enc = encoded_sample(v as int - 0x8000, 2);
                assert(vs@.take(i + 1).drop_last() =~= vs@.take(i as int));
                assert(vs@.take(i + 1).last() == v);
                assert(encoded_batch_u16(vs@.take(i + 1)) == encoded_batch_u16(vs@.take(i as int))
                    + enc);
                assert(old(self).accepted@ + (encoded_batch_u16(vs@.take(i as int)) + enc) =~= (old(
                    self,
                ).accepted@ + encoded_batch_u16(vs@.take(i as int))) + enc);
                lemma_prefix_trans(old(self).delivered@, dv0, self.delivered@);
            }
            i = i + 1;
        }
        proof {
            if live {
                assert(vs@.take(vs@.len() as int) =~= vs@);
            } else if old(self).is_active() {
                assert(0 <= i <= vs@.len() && self.accepted@ == old(self).accepted@
                    + encoded_batch_u16(vs@.take(i as int)));
            }
        }
        live
    }

    /// Ends a live session on source exhaustion: the partial open chunk,
    /// if any, is delivered as the one final short chunk, and production
    /// stops. When the final send goes through, the delivered chunks hold
    /// exactly every accepted byte, in order.
    pub fn finish(&mut self) -> (drained: bool)
        requires
            old(self).wf(),
        ensures
            !final(self).is_active(),
            final(self).fmt == old(self).fmt,
            final(self).accepted_bytes() == old(self).accepted_bytes(),
            !old(self).is_active() ==> final(self).delivered_chunks() == old(
                self,
            ).delivered_chunks() && !drained,
            old(self).is_active() && drained ==> {
                &&& final(self).delivered_chunks() == if old(self).pending().len() == 0 {
                    old(self).delivered_chunks()
                } else {
                    old(self).delivered_chunks().push(old(self).pending())
                }
                &&& final(self).delivered_chunks().flatten() == final(self).accepted_bytes()
                &&& forall|i: int| 0 <= i < final(self).delivered_chunks().len() - 1
                    ==> (#[trigger] final(self).delivered_chunks()[i]).len() == old(self).buf.cap
                &&& final(self).delivered_chunks().len() > 0
                    ==> final(self).delivered_chunks().last().len() <= old(self).buf.cap
            },
            old(self).is_active() && !drained ==> final(self).delivered_chunks() == old(
                self,
            ).delivered_chunks(),
            old(self).delivered_chunks().is_prefix_of(final(self).delivered_chunks()),
            old(self).is_active() && old(self).pending().len() == 0 ==> drained,
    {
        if !self.active {
            return false;
        }
        self.active = false;
        match self.buf.flush() {
            None => {
                proof {
                    assert(old(self).pending() =~= Seq::<u8>::empty());
                    assert(old(self).delivered@.flatten() + old(self).pending() =~= old(
                        self,
                    ).delivered@.flatten());
                }
                true
            },
            Some(part) => {
                let ghost pv = part@;
                let ok = send_chunk(&self.tx, part);
                if ok {
                    proof {
                        self.delivered@ = self.delivered@.push(pv);
                        old(self).delivered@.lemma_flatten_push(pv);
                    }
                    true
                } else {
                    false
                }
            },
        }
    }
}

impl Producer {
    /// Runs a whole finite source through the pipeline: every sample
    /// clamped, encoded and chunked in order, then the final partial
    /// chunk flushed. When the consumer stays connected throughout, the
    /// delivered chunks hold, byte for byte and in order, exactly the
    /// encoding of the given samples after whatever was accepted before.
    pub fn stream_all_quantized(&mut self, samples: &[i64]) -> (drained: bool)
        requires
            old(self).wf(),
        ensures
            !final(self).is_active(),
            final(self).fmt == old(self).fmt,
            !old(self).is_active() ==> final(self).delivered_chunks() == old(
                self,
            ).delivered_chunks() && !drained,
            old(self).is_active() && samples@.len() == 0 && old(self).pending().len() == 0
                ==> drained,
            old(self).is_active() && drained ==> {
                &&& final(self).delivered_chunks().flatten() == old(self).accepted_bytes()
                    + encoded_batch(samples@, old(self).fmt.spec_width())
                &&& forall|i: int| 0 <= i < final(self).delivered_chunks().len() - 1
                    ==> (#[trigger] final(self).delivered_chunks()[i]).len() == old(self).buf.cap
                &&& final(self).delivered_chunks().len() > 0
                    ==> final(self).delivered_chunks().last().len() <= old(self).buf.cap
            },
            old(self).delivered_chunks().is_prefix_of(final(self).delivered_chunks()),
    {
        let live = self.on_samples_quantized(samples);
        let ghost mid = *self;
        let drained = self.finish();
        proof {
            lemma_prefix_trans(old(self).delivered@, mid.delivered@, self.delivered@);
            if old(self).is_active() && drained {
                assert(live);
            }
            if old(self).is_active() && samples@.len() == 0 && old(self).pending().len() == 0 {
                assert(mid.is_active());
                assert(mid.pending().len() == 0);
            }
        }
        drained && live
    }
}

/// Law: while a session is live, the bytes of the delivered chunks
/// followed by the pending bytes are exactly the accepted encoded bytes,
/// byte for byte and in order, and every delivered chunk is exactly one
/// chunk capacity long.
pub proof fn lemma_stream_ordering(p: Producer)
    requires
        p.wf(),
        p.is_active(),
    ensures
        p.delivered_chunks().flatten() + p.pending() == p.accepted_bytes(),
        forall|i: int|
            0 <= i < p.delivered_chunks().len() ==> (#[trigger] p.delivered_chunks()[i]).len()
                == p.fmt.spec_chunk_capacity(),
{
}

/// A prefix of a prefix is a prefix.
pub proof fn lemma_prefix_trans(a: Seq<Seq<u8>>, b: Seq<Seq<u8>>, c: Seq<Seq<u8>>)
    requires
        a.is_prefix_of(b),
        b.is_prefix_of(c),
    ensures
        a.is_prefix_of(c),
{
    assert(c.subrange(0, b.len() as int).subrange(0, a.len() as int) =~= c.subrange(
        0,
        a.len() as int,
    ));
}

/// Copies a chunk's bytes into an owned vector.
fn clone_bytes(v: &Vec<u8>) -> (r: Vec<u8>)
    ensures
        r@ == v@,
{
    let mut r: Vec<u8> = Vec::new();
    let mut i: usize = 0;
    while i < v.len()
        invariant
            i <= v@.len(),
            r@ == v@.take(i as int),
        decreases v@.len() - i,
    {
        r.push(v[i]);
        proof {
            assert(v@.take(i + 1) =~= v@.take(i as int).push(v@[i as int]));
        }
        i = i + 1;
    }
    proof {
        assert(v@.take(v@.len() as int) =~= v@);
    }
    r
}

} // verus!
