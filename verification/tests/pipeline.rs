use network_audio_input_adapter::adapter::StreamAdapter;
use network_audio_input_adapter::audio_format::FormatDescriptor;
use network_audio_input_adapter::channel::chunk_channel;
use network_audio_input_adapter::producer::Producer;
use network_audio_input_adapter::producer::SessionConfigError;

fn quantize(sample: f64, depth: u32) -> i64 {
    (sample * f64::from(1u32 << (depth - 1))).round() as i64
}

#[test]
fn file_source_two_samples_end_to_end() {
    // A file source with samples [1.0, -1.0] at bit_depth 24, rate 10,
    // one channel: capacity is 3 bytes, so the first sample fills exactly
    // one chunk and the second is flushed as the final partial chunk.
    let fmt = FormatDescriptor { sample_rate: 10, channels: 1, bit_depth: 24 };
    let (tx, rx) = chunk_channel();
    let mut producer = Producer::new(&fmt, tx).expect("format is not degenerate");
    assert!(producer.push_quantized(quantize(1.0, 24)));
    assert!(producer.push_quantized(quantize(-1.0, 24)));
    assert!(producer.finish());
    drop(producer);

    let mut stream = StreamAdapter::new(rx);
    assert_eq!(stream.next_chunk(), Some(vec![0xFF, 0xFF, 0x7F]));
    assert_eq!(stream.next_chunk(), Some(vec![0x00, 0x00, 0x80]));
    assert_eq!(stream.next_chunk(), None);
    // an ended stream stays ended
    assert_eq!(stream.next_chunk(), None);
}

#[test]
fn chunk_concatenation_matches_sample_order() {
    let fmt = FormatDescriptor { sample_rate: 20, channels: 1, bit_depth: 16 };
    let (tx, rx) = chunk_channel();
    let mut producer = Producer::new(&fmt, tx).expect("format is not degenerate");
    let samples: Vec<i16> = vec![-32768, -1, 0, 1, 2, 3, 500, 32767, 9, -9, 11];
    assert!(producer.on_samples_i16(&samples));
    assert!(producer.finish());
    drop(producer);

    let mut stream = StreamAdapter::new(rx);
    let mut out: Vec<u8> = Vec::new();
    let mut chunk_sizes: Vec<usize> = Vec::new();
    while let Some(chunk) = stream.next_chunk() {
        chunk_sizes.push(chunk.len());
        out.extend_from_slice(&chunk);
    }
    let mut expected: Vec<u8> = Vec::new();
    for s in &samples {
        expected.extend_from_slice(&s.to_le_bytes());
    }
    assert_eq!(out, expected);
    // capacity = 2 * 2 * 1 = 4: every chunk but the last is full
    for (i, size) in chunk_sizes.iter().enumerate() {
        if i + 1 < chunk_sizes.len() {
            assert_eq!(*size, 4);
        } else {
            assert!(*size <= 4);
        }
    }
}

#[test]
fn u16_batch_is_recentred_on_the_wire() {
    let fmt = FormatDescriptor { sample_rate: 10, channels: 1, bit_depth: 16 };
    let (tx, rx) = chunk_channel();
    let mut producer = Producer::new(&fmt, tx).expect("format is not degenerate");
    assert!(producer.on_samples_u16(&vec![0x8000u16, 0x0000, 0xFFFF]));
    assert!(producer.finish());
    drop(producer);

    let mut stream = StreamAdapter::new(rx);
    let mut out: Vec<u8> = Vec::new();
    while let Some(chunk) = stream.next_chunk() {
        out.extend_from_slice(&chunk);
    }
    let mut expected: Vec<u8> = Vec::new();
    for v in [0i16, -32768, 32767] {
        expected.extend_from_slice(&v.to_le_bytes());
    }
    assert_eq!(out, expected);
}

#[test]
fn disconnect_stops_production_within_one_step() {
    let fmt = FormatDescriptor { sample_rate: 10, channels: 1, bit_depth: 24 };
    let (tx, rx) = chunk_channel();
    let mut producer = Producer::new(&fmt, tx).expect("format is not degenerate");
    // the consumer goes away before anything is produced
    drop(rx);
    // the producer learns of it at the next sealed chunk: the first sample
    // fills a whole chunk, whose send fails
    assert!(!producer.push_quantized(quantize(0.5, 24)));
    // a stopped session ignores everything after
    assert!(!producer.push_quantized(quantize(0.25, 24)));
    assert!(!producer.on_samples_quantized(&vec![1, 2, 3]));
    assert!(!producer.finish());
}

#[test]
fn whole_file_in_one_call() {
    let fmt = FormatDescriptor { sample_rate: 10, channels: 1, bit_depth: 24 };
    let (tx, rx) = chunk_channel();
    let mut producer = Producer::new(&fmt, tx).expect("format is not degenerate");
    let samples: Vec<i64> = vec![quantize(1.0, 24), quantize(-1.0, 24)];
    assert!(producer.stream_all_quantized(&samples));
    drop(producer);

    let mut stream = StreamAdapter::new(rx);
    assert_eq!(stream.next_chunk(), Some(vec![0xFF, 0xFF, 0x7F]));
    assert_eq!(stream.next_chunk(), Some(vec![0x00, 0x00, 0x80]));
    assert_eq!(stream.next_chunk(), None);
}

#[test]
fn empty_source_delivers_nothing() {
    let fmt = FormatDescriptor { sample_rate: 10, channels: 1, bit_depth: 24 };
    let (tx, rx) = chunk_channel();
    let mut producer = Producer::new(&fmt, tx).expect("format is not degenerate");
    assert!(producer.on_samples_quantized(&Vec::new()));
    assert!(producer.finish());
    drop(producer);

    let mut stream = StreamAdapter::new(rx);
    assert_eq!(stream.next_chunk(), None);
}

#[test]
fn below_capacity_nothing_is_sent_so_nothing_can_fail() {
    // capacity = 3 * 2 * 1 = 6 bytes: one 3-byte sample stays pending, so
    // even a departed consumer is not noticed until a chunk seals
    let fmt = FormatDescriptor { sample_rate: 20, channels: 1, bit_depth: 24 };
    let (tx, rx) = chunk_channel();
    let mut producer = Producer::new(&fmt, tx).expect("format is not degenerate");
    drop(rx);
    assert!(producer.push_quantized(1));
    // the second sample fills the chunk; its send fails
    assert!(!producer.push_quantized(2));
}

#[test]
fn finish_with_nothing_pending_always_drains() {
    let fmt = FormatDescriptor { sample_rate: 10, channels: 1, bit_depth: 16 };
    let (tx, rx) = chunk_channel();
    let mut producer = Producer::new(&fmt, tx).expect("format is not degenerate");
    drop(rx);
    // nothing was pushed, so the flush sends nothing and is owed success
    assert!(producer.finish());
}

#[test]
fn degenerate_format_is_rejected_at_session_start() {
    let fmt = FormatDescriptor { sample_rate: 3, channels: 1, bit_depth: 16 };
    let (tx, _rx) = chunk_channel();
    match Producer::new(&fmt, tx) {
        Err(SessionConfigError::DegenerateFormat) => {},
        Ok(_) => panic!("a zero-capacity format must not open a session"),
    }
}

#[test]
fn empty_finish_sends_no_partial_chunk() {
    let fmt = FormatDescriptor { sample_rate: 10, channels: 1, bit_depth: 16 };
    let (tx, rx) = chunk_channel();
    let mut producer = Producer::new(&fmt, tx).expect("format is not degenerate");
    // one full chunk exactly: capacity = 2 * 1 * 1 = 2, one i16 sample
    assert!(producer.push_sample_i16(7));
    assert!(producer.finish());
    drop(producer);

    let mut stream = StreamAdapter::new(rx);
    assert_eq!(stream.next_chunk(), Some(vec![7, 0]));
    assert_eq!(stream.next_chunk(), None);
}
