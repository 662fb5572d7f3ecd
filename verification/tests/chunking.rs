use network_audio_input_adapter::audio_format::FormatDescriptor;
use network_audio_input_adapter::chunk::ChunkBuffer;

#[test]
fn capacity_for_48k_stereo_24_bit() {
    let fmt = FormatDescriptor { sample_rate: 48000, channels: 2, bit_depth: 24 };
    assert_eq!(fmt.chunk_capacity(), 28800);
}

#[test]
fn capacity_for_degenerate_format_is_zero() {
    let fmt = FormatDescriptor { sample_rate: 3, channels: 1, bit_depth: 16 };
    assert_eq!(fmt.chunk_capacity(), 0);
}

#[test]
fn exact_capacity_seals_exactly_one_chunk() {
    let mut buf = ChunkBuffer::new(28800);
    let bytes = vec![0xABu8; 28800];
    let sealed = buf.push(&bytes);
    assert_eq!(sealed.len(), 1);
    assert_eq!(sealed[0].len(), 28800);
    // the fresh open chunk is empty again
    assert!(buf.flush().is_none());
}

#[test]
fn one_byte_over_capacity_leaves_one_pending() {
    let mut buf = ChunkBuffer::new(28800);
    let bytes = vec![0x5Au8; 28801];
    let sealed = buf.push(&bytes);
    assert_eq!(sealed.len(), 1);
    assert_eq!(sealed[0].len(), 28800);
    let rest = buf.flush().expect("one byte should be pending");
    assert_eq!(rest, vec![0x5A]);
}

#[test]
fn long_run_seals_many_chunks() {
    let mut buf = ChunkBuffer::new(3);
    let bytes: Vec<u8> = (0u8..10).collect();
    let sealed = buf.push(&bytes);
    assert_eq!(sealed.len(), 3);
    assert_eq!(sealed[0], vec![0, 1, 2]);
    assert_eq!(sealed[1], vec![3, 4, 5]);
    assert_eq!(sealed[2], vec![6, 7, 8]);
    assert_eq!(buf.flush(), Some(vec![9]));
}

#[test]
fn concatenation_preserves_order_across_pushes() {
    let mut buf = ChunkBuffer::new(7);
    let mut fed: Vec<u8> = Vec::new();
    let mut out: Vec<u8> = Vec::new();
    for piece in [&[1u8, 2, 3][..], &[4, 5][..], &[6, 7, 8, 9, 10, 11, 12][..], &[13][..]] {
        fed.extend_from_slice(piece);
        for chunk in buf.push(piece) {
            assert_eq!(chunk.len(), 7);
            out.extend_from_slice(&chunk);
        }
    }
    if let Some(rest) = buf.flush() {
        assert!(rest.len() < 7);
        out.extend_from_slice(&rest);
    }
    assert_eq!(out, fed);
}

#[test]
fn push_byte_seals_only_at_capacity() {
    let mut buf = ChunkBuffer::new(2);
    assert!(buf.push_byte(10).is_none());
    assert_eq!(buf.push_byte(20), Some(vec![10, 20]));
    assert!(buf.push_byte(30).is_none());
    assert_eq!(buf.flush(), Some(vec![30]));
}
