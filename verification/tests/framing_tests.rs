use bokken::framing::{frame_for, FrameDecoder};

#[test]
fn frame_has_length_prefix() {
    let f = frame_for(&vec![10, 20, 30]);
    assert_eq!(&f[0..8], &3u64.to_le_bytes());
    assert_eq!(&f[8..], &[10, 20, 30]);
}

#[test]
fn framing_fifo_one_chunk() {
    let payloads: Vec<Vec<u8>> = vec![vec![1, 2, 3], vec![], vec![42; 100], vec![7]];
    let mut stream: Vec<u8> = Vec::new();
    for p in &payloads {
        stream.extend_from_slice(&frame_for(p));
    }
    let mut dec = FrameDecoder::new();
    let out = dec.push_chunk(&stream);
    assert_eq!(out, payloads);
}

#[test]
fn framing_fifo_any_chunking() {
    let payloads: Vec<Vec<u8>> = vec![vec![9, 9], vec![0; 17], vec![255]];
    let mut stream: Vec<u8> = Vec::new();
    for p in &payloads {
        stream.extend_from_slice(&frame_for(p));
    }
    // feed the same stream one byte at a time
    let mut dec = FrameDecoder::new();
    let mut out: Vec<Vec<u8>> = Vec::new();
    for b in &stream {
        out.extend(dec.push_chunk(&[*b]));
    }
    assert_eq!(out, payloads);
    // and in two uneven chunks
    let mut dec2 = FrameDecoder::new();
    let mut out2 = dec2.push_chunk(&stream[0..11]);
    out2.extend(dec2.push_chunk(&stream[11..]));
    assert_eq!(out2, payloads);
}

#[test]
fn framing_no_splitting_or_merging() {
    let a = frame_for(&vec![1]);
    let b = frame_for(&vec![2, 2]);
    let mut dec = FrameDecoder::new();
    let mut stream = a.clone();
    stream.extend_from_slice(&b);
    let out = dec.push_chunk(&stream);
    assert_eq!(out.len(), 2);
    assert_eq!(out[0], vec![1]);
    assert_eq!(out[1], vec![2, 2]);
}

#[test]
fn framing_empty_payload() {
    let mut dec = FrameDecoder::new();
    let out = dec.push_chunk(&frame_for(&vec![]));
    assert_eq!(out, vec![Vec::<u8>::new()]);
}

#[test]
fn decoder_waits_for_partial_frame() {
    let f = frame_for(&vec![1, 2, 3, 4]);
    let mut dec = FrameDecoder::new();
    let out = dec.push_chunk(&f[0..10]);
    assert!(out.is_empty());
    let out2 = dec.push_chunk(&f[10..]);
    assert_eq!(out2, vec![vec![1, 2, 3, 4]]);
}
