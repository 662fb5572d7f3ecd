use vstd::prelude::*;

verus! {

/// 256 to the power `w`: the number of distinct values of a `w`-byte sample.
pub open spec fn pow256(w: nat) -> int
    decreases w,
{
    if w == 0 {
        1
    } else {
        256 * pow256((w - 1) as nat)
    }
}

/// The values of `pow256` for every sample width this library handles.
pub proof fn lemma_pow256_values()
    ensures
        pow256(0) == 1,
        pow256(1) == 256,
        pow256(2) == 0x1_0000,
        pow256(3) == 0x100_0000,
        pow256(4) == 0x1_0000_0000,
{
    reveal_with_fuel(pow256, 5);
}

/// Byte `i` (little-endian, so byte 0 is least significant) of the
/// unsigned value `u`.
pub open spec fn byte_at(u: int, i: int) -> u8 {
    ((u / pow256(i as nat)) % 256) as u8
}

/// The `w` bytes of the unsigned value `u`, least significant first.
pub open spec fn le_bytes(u: int, w: nat) -> Seq<u8> {
    Seq::new(w, |i: int| byte_at(u, i))
}

/// The unsigned value read back from up to four little-endian bytes.
pub open spec fn le_value(s: Seq<u8>) -> int {
    (if s.len() > 0 {
        s[0] as int
    } else {
        0
    }) + (if s.len() > 1 {
        256 * s[1]
    } else {
        0
    }) + (if s.len() > 2 {
        0x1_0000 * s[2]
    } else {
        0
    }) + (if s.len() > 3 {
        0x100_0000 * s[3]
    } else {
        0
    })
}

/// Smallest sample value representable in `w` bytes, two's complement.
pub open spec fn sample_min(w: nat) -> int {
    -(pow256(w) / 2)
}

/// Largest sample value representable in `w` bytes, two's complement.
pub open spec fn sample_max(w: nat) -> int {
    pow256(w) / 2 - 1
}

/// Whether `v` fits in a signed `w`-byte sample.
pub open spec fn in_sample_range(v: int, w: nat) -> bool {
    sample_min(w) <= v <= sample_max(w)
}

/// Two's-complement image of the signed value `v` in `w` bytes.
pub open spec fn to_unsigned(v: int, w: nat) -> int {
    if v < 0 {
        v + pow256(w)
    } else {
        v
    }
}

/// Signed value denoted by the unsigned `w`-byte image `u`.
pub open spec fn from_unsigned(u: int, w: nat) -> int {
    if u >= pow256(w) / 2 {
        u - pow256(w)
    } else {
        u
    }
}

/// The wire representation of the signed sample `v` at width `w`:
/// its two's-complement image, little-endian.
pub open spec fn encoded_sample(v: int, w: nat) -> Seq<u8> {
    le_bytes(to_unsigned(v, w), w)
}

/// The signed sample a wire byte sequence denotes.
pub open spec fn decoded_sample(s: Seq<u8>) -> int {
    from_unsigned(le_value(s), s.len())
}

/// `q` forced into the representable range of a signed `w`-byte sample:
/// values below the range become the minimum, values above it the maximum,
/// and values inside it pass through unchanged.
pub open spec fn clamped(q: int, w: nat) -> int {
    if q < sample_min(w) {
        sample_min(w)
    } else if q > sample_max(w) {
        sample_max(w)
    } else {
        q
    }
}

/// The wire depths this library supports.
pub open spec fn valid_depth(d: int) -> bool {
    d == 16 || d == 24 || d == 32
}

/// Clamping always lands inside the representable range, it is the
/// identity exactly on the range, and out-of-range input maps to the
/// nearest bound — never wraps.
pub proof fn lemma_clamped_in_range(q: int, w: nat)
    requires
        w == 2 || w == 3 || w == 4,
    ensures
        in_sample_range(clamped(q, w), w),
        in_sample_range(q, w) ==> clamped(q, w) == q,
        q > sample_max(w) ==> clamped(q, w) == sample_max(w),
        q < sample_min(w) ==> clamped(q, w) == sample_min(w),
{
    lemma_pow256_values();
}

/// Reading the `w` little-endian bytes of `u` back yields `u`.
pub proof fn lemma_le_round_trip(u: u64, w: nat)
    requires
        w == 2 || w == 3 || w == 4,
        u < pow256(w),
    ensures
        le_value(le_bytes(u as int, w)) == u,
{
    lemma_pow256_values();
    let s = le_bytes(u as int, w);
    assert(s[0] == byte_at(u as int, 0));
    assert(s[1] == byte_at(u as int, 1));
    assert(byte_at(u as int, 0) == ((u as int / 1) % 256) as u8);
    assert(byte_at(u as int, 1) == ((u as int / 256) % 256) as u8);
    if w == 2 {
        assert((u % 1) == 0 && u / 1 == u && (u % 256) + 256 * ((u / 256) % 256) == u
            && (u / 256) % 256 < 256) by (bit_vector)
            requires
                u < 0x1_0000u64,
        ;
    } else if w == 3 {
        assert(s[2] == byte_at(u as int, 2));
        assert(byte_at(u as int, 2) == ((u as int / 0x1_0000) % 256) as u8);
        assert(u / 1 == u && (u % 256) + 256 * ((u / 256) % 256) + 0x1_0000 * ((u / 0x1_0000)
            % 256) == u) by (bit_vector)
            requires
                u < 0x100_0000u64,
        ;
    } else {
        assert(s[2] == byte_at(u as int, 2));
        assert(s[3] == byte_at(u as int, 3));
        assert(byte_at(u as int, 2) == ((u as int / 0x1_0000) % 256) as u8);
        assert(byte_at(u as int, 3) == ((u as int / 0x100_0000) % 256) as u8);
        assert(u / 1 == u && (u % 256) + 256 * ((u / 256) % 256) + 0x1_0000 * ((u / 0x1_0000)
            % 256) + 0x100_0000 * ((u / 0x100_0000) % 256) == u) by (bit_vector)
            requires
                u < 0x1_0000_0000u64,
        ;
    }
}

/// Round trip at the sample level: decoding the wire bytes of an in-range
/// signed sample recovers the sample exactly.
pub proof fn lemma_sample_round_trip(v: int, w: nat)
    requires
        w == 2 || w == 3 || w == 4,
        in_sample_range(v, w),
    ensures
        decoded_sample(encoded_sample(v, w)) == v,
{
    lemma_pow256_values();
    let u = to_unsigned(v, w);
    assert(0 <= u < pow256(w));
    lemma_le_round_trip(u as u64, w);
    assert(le_value(le_bytes(u, w)) == u);
    if v < 0 {
        assert(u >= pow256(w) / 2);
    } else {
        assert(u < pow256(w) / 2);
    }
}

/// Number of distinct values of a sample of `w` bytes, as a machine word.
fn modulus_for_width(w: usize) -> (m: u64)
    requires
        2 <= w <= 4,
    ensures
        m as int == pow256(w as nat),
{
    proof {
        lemma_pow256_values();
    }
    if w == 2 {
        0x1_0000
    } else if w == 3 {
        0x100_0000
    } else {
        0x1_0000_0000
    }
}

/// Encodes the in-range signed sample `v` as `depth / 8` little-endian
/// bytes of its two's-complement image.
pub fn encode_int_sample(v: i64, depth: usize) -> (r: Vec<u8>)
    requires
        valid_depth(depth as int),
        in_sample_range(v as int, (depth / 8) as nat),
    ensures
        r@ == encoded_sample(v as int, (depth / 8) as nat),
        r@.len() == depth / 8,
{
    proof {
        lemma_pow256_values();
    }
    let w = depth / 8;
    let m = modulus_for_width(w);
    let u: u64 = if v < 0 {
        (v + m as i64) as u64
    } else {
        v as u64
    };
    assert(u as int == to_unsigned(v as int, w as nat));
    let mut out: Vec<u8> = Vec::new();
    out.push((u % 256) as u8);
    out.push((u / 256 % 256) as u8);
    if w >= 3 {
        out.push((u / 0x1_0000 % 256) as u8);
    }
    if w == 4 {
        out.push((u / 0x100_0000 % 256) as u8);
    }
    proof {
        assert(u as int / 1 == u as int);
        assert(out@ =~= le_bytes(u as int, w as nat));
    }
    out
}

/// Decodes two to four little-endian wire bytes back into the signed
/// sample they denote.
pub fn decode_sample(bytes: &Vec<u8>) -> (v: i64)
    requires
        2 <= bytes@.len() <= 4,
    ensures
        v as int == decoded_sample(bytes@),
        in_sample_range(v as int, bytes@.len()),
{
    proof {
        lemma_pow256_values();
    }
    let n = bytes.len();
    let mut u: u64 = bytes[0] as u64 + 256 * (bytes[1] as u64);
    if n >= 3 {
        u = u + 0x1_0000 * (bytes[2] as u64);
    }
    if n == 4 {
        u = u + 0x100_0000 * (bytes[3] as u64);
    }
    assert(u as int == le_value(bytes@));
    let m = modulus_for_width(n);
    if u >= m / 2 {
        u as i64 - m as i64
    } else {
        u as i64
    }
}

/// Forces the quantized value `q` into the representable range of a
/// signed sample of `depth` bits, as the clamping rule demands for
/// float-derived samples: out-of-range input saturates, never wraps.
pub fn clamp_quantized(q: i64, depth: usize) -> (r: i64)
    requires
        valid_depth(depth as int),
    ensures
        r as int == clamped(q as int, (depth / 8) as nat),
        in_sample_range(r as int, (depth / 8) as nat),
        in_sample_range(q as int, (depth / 8) as nat) ==> r == q,
{
    proof {
        lemma_pow256_values();
    }
    let m = modulus_for_width(depth / 8);
    let lo: i64 = -((m / 2) as i64);
    let hi: i64 = (m / 2) as i64 - 1;
    if q < lo {
        lo
    } else if q > hi {
        hi
    } else {
        q
    }
}

/// Encodes a quantized float-derived sample: clamp to the target range,
/// then encode the clamped value.
pub fn encode_quantized(q: i64, depth: usize) -> (r: Vec<u8>)
    requires
        valid_depth(depth as int),
    ensures
        r@ == encoded_sample(clamped(q as int, (depth / 8) as nat), (depth / 8) as nat),
        r@.len() == depth / 8,
{
    let c = clamp_quantized(q, depth);
    encode_int_sample(c, depth)
}

/// Encodes a native 16-bit integer sample; every `i16` is in range.
pub fn encode_i16(v: i16) -> (r: Vec<u8>)
    ensures
        r@ == encoded_sample(v as int, 2),
        r@.len() == 2,
{
    proof {
        lemma_pow256_values();
    }
    encode_int_sample(v as i64, 16)
}

/// Recentres an unsigned 16-bit sample onto the signed scale, as audio
/// backends define the conversion: 0x8000 maps to zero.
pub fn u16_to_i16(u: u16) -> (r: i16)
    ensures
        r as int == u as int - 0x8000,
{
    (u as i32 - 0x8000) as i16
}

} // verus!
