use vstd::prelude::*;

verus! {

/// Description of a PCM stream: frames per second, interleaved channel
/// count, and the number of bits that carry one sample on the wire.
/// Immutable once a session is opened; every downstream component reads it.
#[derive(Clone, Copy, Debug, PartialEq, Eq, Structural)]
pub struct FormatDescriptor {
    pub sample_rate: u32,
    pub channels: u16,
    pub bit_depth: usize,
}

impl FormatDescriptor {
    /// A descriptor is meaningful when the rate and the channel count are
    /// positive and the wire depth is one of the three supported widths.
    pub open spec fn wf(self) -> bool {
        &&& self.sample_rate > 0
        &&& self.channels > 0
        &&& (self.bit_depth == 16 || self.bit_depth == 24 || self.bit_depth == 32)
    }

    /// Width of one encoded sample in bytes.
    pub open spec fn spec_width(self) -> nat {
        (self.bit_depth / 8) as nat
    }

    /// Bytes of encoded audio that cover roughly a tenth of a second:
    /// sample width times a tenth of the rate, over all channels, rounded
    /// down at the division.
    pub open spec fn spec_chunk_capacity(self) -> int {
        self.bit_depth as int / 8 * self.sample_rate as int / 10 * self.channels as int
    }

    /// Builds the descriptor negotiated for a native source: the rate and
    /// channel count are taken as they are, and the wire depth is the native
    /// width capped at 24 bits.
    pub fn from_native(sample_rate: u32, channels: u16, native_sample_bytes: usize) -> (r:
        FormatDescriptor)
        requires
            1 <= native_sample_bytes <= 8,
        ensures
            r.sample_rate == sample_rate,
            r.channels == channels,
            r.bit_depth == if native_sample_bytes * 8 < 24 {
                native_sample_bytes * 8
            } else {
                24
            },
    {
        let native_bits = native_sample_bytes * 8;
        let bit_depth = if native_bits < 24 {
            native_bits
        } else {
            24
        };
        FormatDescriptor { sample_rate, channels, bit_depth }
    }

    /// Frames per second of the stream.
    pub fn sample_rate(&self) -> (r: u32)
        ensures
            r == self.sample_rate,
    {
        self.sample_rate
    }

    /// Bits per encoded sample on the wire.
    pub fn bit_depth(&self) -> (r: usize)
        ensures
            r == self.bit_depth,
    {
        self.bit_depth
    }

    /// Number of interleaved channels.
    pub fn channels(&self) -> (r: u16)
        ensures
            r == self.channels,
    {
        self.channels
    }

    /// Chunk capacity in bytes for this format. The value is fixed per
    /// session; a capacity of zero marks a degenerate format that a session
    /// must reject at start.
    pub fn chunk_capacity(&self) -> (r: u64)
        requires
            self.wf(),
        ensures
            r as int == self.spec_chunk_capacity(),
    {
        let width = self.bit_depth as u64 / 8;
        let rate = self.sample_rate as u64;
        let chans = self.channels as u64;
        assert(width * rate <= 4 * 0xffff_ffffu64) by (nonlinear_arith)
            requires
                width <= 4,
                rate <= 0xffff_ffffu64,
        ;
        let per_second = width * rate;
        let tenth = per_second / 10;
        assert(tenth * chans <= 0x1_8000_0000u64 * 0xffffu64) by (nonlinear_arith)
            requires
                tenth <= 0x1_8000_0000u64,
                chans <= 0xffffu64,
        ;
        tenth * chans
    }
}

} // verus!
