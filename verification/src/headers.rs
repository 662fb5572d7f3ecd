use vstd::prelude::*;

use crate::audio_format::FormatDescriptor;

verus! {

/// The decimal digits of `n` in ASCII, most significant first, with no
/// leading zero except for `n == 0` itself.
pub open spec fn dec_digits(n: nat) -> Seq<u8>
    decreases n,
{
    if n < 10 {
        seq![(48 + n) as u8]
    } else {
        dec_digits(n / 10).push((48 + n % 10) as u8)
    }
}

/// Writes `n` in decimal ASCII.
pub fn u64_decimal(n: u64) -> (r: Vec<u8>)
    ensures
        r@ == dec_digits(n as nat),
{
    let mut out: Vec<u8> = Vec::new();
    let mut m: u64 = n;
    while m >= 10
        invariant
            dec_digits(n as nat) == dec_digits(m as nat) + out@,
        decreases m,
    {
        let d: u8 = 48 + (m % 10) as u8;
        let ghost out0 = out@;
        out.insert(0, d);
        proof {
            assert(out@ =~= seq![d] + out0);
            assert(dec_digits(m as nat) == dec_digits((m as nat) / 10).push(d));
            assert(dec_digits((m as nat) / 10).push(d) =~= dec_digits((m as nat) / 10) + seq![d]);
            assert((dec_digits((m as nat) / 10) + seq![d]) + out0 =~= dec_digits((m as nat) / 10)
                + (seq![d] + out0));
            assert((m as nat) / 10 == (m / 10) as nat);
        }
        m = m / 10;
    }
    let d: u8 = 48 + m as u8;
    let ghost out0 = out@;
    out.insert(0, d);
    proof {
        assert(out@ =~= seq![d] + out0);
        assert(dec_digits(m as nat) =~= seq![d]);
        assert(dec_digits(n as nat) =~= seq![d] + out0);
    }
    out
}

/// The bytes of the content-type marker, "application/x-hqplayer-raw".
pub open spec fn content_type_bytes() -> Seq<u8> {
    seq![
        97u8, 112u8, 112u8, 108u8, 105u8, 99u8, 97u8, 116u8, 105u8, 111u8, 110u8, 47u8, 120u8,
        45u8, 104u8, 113u8, 112u8, 108u8, 97u8, 121u8, 101u8, 114u8, 45u8, 114u8, 97u8, 119u8,
    ]
}

/// The bytes of the source label, "Network Input".
pub open spec fn title_bytes() -> Seq<u8> {
    seq![78u8, 101u8, 116u8, 119u8, 111u8, 114u8, 107u8, 32u8, 73u8, 110u8, 112u8, 117u8, 116u8]
}

/// The wire-format label for a bit depth: "int", the depth in decimal,
/// then "le".
pub open spec fn format_label_bytes(depth: nat) -> Seq<u8> {
    seq![105u8, 110u8, 116u8] + dec_digits(depth) + seq![108u8, 101u8]
}

/// Copies a byte pattern into an owned vector.
fn bytes_of(pat: &[u8]) -> (r: Vec<u8>)
    ensures
        r@ == pat@,
{
    let mut r: Vec<u8> = Vec::new();
    let mut i: usize = 0;
    while i < pat.len()
        invariant
            i <= pat@.len(),
            r@ == pat@.take(i as int),
        decreases pat@.len() - i,
    {
        r.push(pat[i]);
        proof {
            assert(pat@.take(i + 1) =~= pat@.take(i as int).push(pat@[i as int]));
        }
        i = i + 1;
    }
    proof {
        assert(pat@.take(pat@.len() as int) =~= pat@);
    }
    r
}

/// The value of the content-type header.
pub fn content_type_value() -> (r: Vec<u8>)
    ensures
        r@ == content_type_bytes(),
{
    // "application/x-hqplayer-raw"
    let pat: [u8; 26] = [
        97, 112, 112, 108, 105, 99, 97, 116, 105, 111, 110, 47, 120, 45, 104, 113, 112, 108, 97,
        121, 101, 114, 45, 114, 97, 119,
    ];
    proof {
        assert(pat@ =~= content_type_bytes());
    }
    bytes_of(pat.as_slice())
}

/// The value of the source-title header.
pub fn title_value() -> (r: Vec<u8>)
    ensures
        r@ == title_bytes(),
{
    // "Network Input"
    let pat: [u8; 13] = [78, 101, 116, 119, 111, 114, 107, 32, 73, 110, 112, 117, 116];
    proof {
        assert(pat@ =~= title_bytes());
    }
    bytes_of(pat.as_slice())
}

/// The value of the sample-rate header: the rate in decimal.
pub fn sample_rate_value(fmt: &FormatDescriptor) -> (r: Vec<u8>)
    ensures
        r@ == dec_digits(fmt.sample_rate as nat),
{
    u64_decimal(fmt.sample_rate as u64)
}

/// The value of the channel-count header: the count in decimal.
pub fn channels_value(fmt: &FormatDescriptor) -> (r: Vec<u8>)
    ensures
        r@ == dec_digits(fmt.channels as nat),
{
    u64_decimal(fmt.channels as u64)
}

/// The value of the wire-format header, such as "int24le".
pub fn format_value(fmt: &FormatDescriptor) -> (r: Vec<u8>)
    ensures
        r@ == format_label_bytes(fmt.bit_depth as nat),
{
    let mut out: Vec<u8> = Vec::new();
    out.push(105);
    out.push(110);
    out.push(116);
    proof {
        assert(out@ =~= seq![105u8, 110u8, 116u8]);
    }
    let ghost head = out@;
    let mut digits = u64_decimal(fmt.bit_depth as u64);
    let ghost dv = digits@;
    out.append(&mut digits);
    proof {
        assert(out@ == head + dv);
    }
    let ghost mid = out@;
    out.push(108);
    out.push(101);
    proof {
        assert(out@ =~= mid + seq![108u8, 101u8]);
        assert((seq![105u8, 110u8, 116u8] + dv) + seq![108u8, 101u8] =~= format_label_bytes(
            fmt.bit_depth as nat,
        ));
    }
    out
}

} // verus!
