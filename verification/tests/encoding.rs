use network_audio_input_adapter::encode::clamp_quantized;
use network_audio_input_adapter::encode::decode_sample;
use network_audio_input_adapter::encode::encode_i16;
use network_audio_input_adapter::encode::encode_int_sample;
use network_audio_input_adapter::encode::encode_quantized;
use network_audio_input_adapter::encode::u16_to_i16;

fn quantize(sample: f64, depth: u32) -> i64 {
    (sample * f64::from(1u32 << (depth - 1))).round() as i64
}

#[test]
fn round_trip_16_bit_integers() {
    for v in [-32768i64, -32767, -1, 0, 1, 127, 12345, 32767] {
        let bytes = encode_int_sample(v, 16);
        assert_eq!(bytes.len(), 2);
        assert_eq!(decode_sample(&bytes), v);
    }
}

#[test]
fn round_trip_24_bit_integers() {
    for v in [-8388608i64, -8388607, -1, 0, 1, 65536, 8388607] {
        let bytes = encode_int_sample(v, 24);
        assert_eq!(bytes.len(), 3);
        assert_eq!(decode_sample(&bytes), v);
    }
}

#[test]
fn round_trip_32_bit_integers() {
    for v in [-2147483648i64, -1, 0, 1, 2147483647] {
        let bytes = encode_int_sample(v, 32);
        assert_eq!(bytes.len(), 4);
        assert_eq!(decode_sample(&bytes), v);
    }
}

#[test]
fn round_trip_float_within_one_lsb() {
    let scale = 8388608.0f64;
    for s in [-1.0f64, -0.5, -0.1234, 0.0, 0.25, 0.701, 0.999999] {
        let q = quantize(s, 24);
        let bytes = encode_quantized(q, 24);
        let back = decode_sample(&bytes) as f64 / scale;
        assert!((back - s).abs() <= 1.0 / scale);
    }
}

#[test]
fn clamp_positive_overdrive_saturates() {
    let q = quantize(1.5, 24);
    assert_eq!(clamp_quantized(q, 24), 8388607);
    let bytes = encode_quantized(q, 24);
    assert_eq!(bytes, vec![0xFF, 0xFF, 0x7F]);
}

#[test]
fn clamp_negative_overdrive_saturates() {
    let q = quantize(-1.5, 24);
    assert_eq!(clamp_quantized(q, 24), -8388608);
    let bytes = encode_quantized(q, 24);
    assert_eq!(bytes, vec![0x00, 0x00, 0x80]);
}

#[test]
fn clamp_is_identity_in_range() {
    for q in [-8388608i64, -1, 0, 1, 8388607] {
        assert_eq!(clamp_quantized(q, 24), q);
    }
    for q in [-32768i64, 0, 32767] {
        assert_eq!(clamp_quantized(q, 16), q);
    }
}

#[test]
fn clamp_never_leaves_range_at_any_depth() {
    for q in [i64::MIN, -4294967296, -8388609, 8388608, 4294967296, i64::MAX] {
        let c16 = clamp_quantized(q, 16);
        assert!((-32768..=32767).contains(&c16));
        let c24 = clamp_quantized(q, 24);
        assert!((-8388608..=8388607).contains(&c24));
        let c32 = clamp_quantized(q, 32);
        assert!((-2147483648..=2147483647).contains(&c32));
    }
}

#[test]
fn full_scale_float_is_exactly_representable_negative_only() {
    // +1.0 quantizes one past the top and is clamped; -1.0 lands exactly on
    // the bottom of the range.
    assert_eq!(clamp_quantized(quantize(1.0, 24), 24), 8388607);
    assert_eq!(clamp_quantized(quantize(-1.0, 24), 24), -8388608);
}

#[test]
fn little_endian_byte_order() {
    assert_eq!(encode_int_sample(1, 16), vec![0x01, 0x00]);
    assert_eq!(encode_int_sample(-2, 16), vec![0xFE, 0xFF]);
    assert_eq!(encode_int_sample(0x0123_45, 24), vec![0x45, 0x23, 0x01]);
    assert_eq!(encode_int_sample(-1, 24), vec![0xFF, 0xFF, 0xFF]);
    assert_eq!(encode_int_sample(0x0102_0304, 32), vec![0x04, 0x03, 0x02, 0x01]);
}

#[test]
fn encode_i16_matches_int_encoding() {
    for v in [-32768i16, -1, 0, 1, 32767] {
        assert_eq!(encode_i16(v), encode_int_sample(v as i64, 16));
    }
}

#[test]
fn u16_samples_are_recentred() {
    assert_eq!(u16_to_i16(0x8000), 0);
    assert_eq!(u16_to_i16(0), -32768);
    assert_eq!(u16_to_i16(0xFFFF), 32767);
    assert_eq!(u16_to_i16(0x8001), 1);
}
